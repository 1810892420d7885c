//! Canonicalize `root_path`, pre-dedup duplicates, and add a UNIQUE index:
//! the plan of which stored project records to rewrite and which to drop.
use vstd::prelude::*;

use crate::util::{canonicalize_root_path, spec_canonical_root};

verus! {

/// A stored project record, as the root-path deduplication reads it: its
/// `root_path` (if it is a string) and its `updated_at` in epoch seconds
/// (0 when absent).
#[derive(Debug, Clone)]
pub struct RootRecord {
    pub root_path: Option<String>,
    pub updated_at: i64,
}

/// The view of a record: root path text and update time.
pub open spec fn record_view(r: RootRecord) -> (Option<Seq<char>>, i64) {
    (crate::runtime::status::opt_view(r.root_path), r.updated_at)
}

/// The canonical root of a record with a root path.
pub open spec fn canon_of(r: (Option<Seq<char>>, i64)) -> Seq<char> {
    spec_canonical_root(r.0.unwrap())
}

/// Record `i` is rewritten: its stored root path is not canonical.
pub open spec fn spec_rewritten(rs: Seq<(Option<Seq<char>>, i64)>, i: int) -> bool {
    rs[i].0 is Some && canon_of(rs[i]) != rs[i].0.unwrap()
}

/// Record `j` outranks record `i` in their canonical-root group: it was
/// updated later, or at the same time and stored later.
pub open spec fn outranks(rs: Seq<(Option<Seq<char>>, i64)>, j: int, i: int) -> bool {
    &&& 0 <= j < rs.len()
    &&& j != i
    &&& rs[j].0 is Some
    &&& canon_of(rs[j]) == canon_of(rs[i])
    &&& (rs[j].1 > rs[i].1 || (rs[j].1 == rs[i].1 && j > i))
}

/// Record `i` is dropped: its root resolves to the filesystem root, or
/// another record of its canonical root outranks it (only the most recently
/// updated record of each root survives).
pub open spec fn spec_dropped(rs: Seq<(Option<Seq<char>>, i64)>, i: int) -> bool {
    rs[i].0 is Some && (canon_of(rs[i]) == seq!['/'] || exists|j: int| #[trigger] outranks(rs, j, i))
}

/// Strictly increasing indices.
pub open spec fn increasing(s: Seq<usize>) -> bool {
    forall|a: int, b: int| 0 <= a < b < s.len() ==> s[a] < s[b]
}

/// What the migration does to the stored projects.
#[derive(Debug, Clone)]
pub struct RootDedupPlan {
    /// The canonical root of each record (`None` when it has no root path).
    pub canonical: Vec<Option<String>>,
    /// Indices of records whose stored root path must be rewritten.
    pub rewrite: Vec<usize>,
    /// Indices of records to delete, with their `file_data`.
    pub drop: Vec<usize>,
}

proof fn lemma_push_index(v: Seq<usize>, i: usize)
    requires
        increasing(v),
        forall|k: int| 0 <= k < v.len() ==> v[k] < i,
    ensures
        increasing(v.push(i)),
        forall|k: usize| v.push(i).contains(k) <==> (v.contains(k) || k == i),
        forall|k: int| 0 <= k < v.push(i).len() ==> v.push(i)[k] < i + 1,
        !v.contains(i),
{
    let w = v.push(i);
    assert forall|k: usize| w.contains(k) <==> (v.contains(k) || k == i) by {
        if w.contains(k) {
            let t = choose|t: int| 0 <= t < w.len() && w[t] == k;
            if t < v.len() {
                assert(v[t] == k);
            }
        }
        if v.contains(k) {
            let t = choose|t: int| 0 <= t < v.len() && v[t] == k;
            assert(w[t] == k);
        }
        if k == i {
            assert(w[v.len() as int] == i);
        }
    }
    if v.contains(i) {
        let t = choose|t: int| 0 <= t < v.len() && v[t] == i;
    }
}

proof fn lemma_keep_index(v: Seq<usize>, i: usize)
    requires
        forall|k: int| 0 <= k < v.len() ==> v[k] < i,
    ensures
        forall|k: int| 0 <= k < v.len() ==> v[k] < i + 1,
        !v.contains(i),
{
    if v.contains(i) {
        let t = choose|t: int| 0 <= t < v.len() && v[t] == i;
    }
}

fn is_fs_root(c: &String) -> (b: bool)
    ensures
        b == (c@ == seq!['/']),
{
    let cs = crate::text::chars_of(c.as_str());
    if cs.len() == 1 && cs[0] == '/' {
        assert(cs@ =~= seq!['/']);
        true
    } else {
        assert(c@ != seq!['/']) by {
            if cs@.len() == 1 { assert(cs@[0] != '/'); }
        }
        false
    }
}

fn is_outranked(
    records: &Vec<RootRecord>,
    canonical: &Vec<Option<String>>,
    i: usize,
    Ghost(rs): Ghost<Seq<(Option<Seq<char>>, i64)>>,
) -> (b: bool)
    requires
        i < records@.len(),
        rs == records@.map_values(|r: RootRecord| record_view(r)),
        canonical@.len() == records@.len(),
        rs[i as int].0 is Some,
        forall|k: int|
            0 <= k < records@.len() ==> crate::runtime::status::opt_view(#[trigger] canonical@[k]) == match rs[k].0 {
                Some(r) => Some(spec_canonical_root(r)),
                None => None,
            },
    ensures
        b == exists|j: int| #[trigger] outranks(rs, j, i as int),
{
    let n = records.len();
    assert(canonical@[i as int] is Some);
    let ci = match &canonical[i] {
        Some(c) => c,
        None => { return false; },
    };
    assert(ci@ == canon_of(rs[i as int]));
    let ui = records[i].updated_at;
    let mut j: usize = 0;
    while j < n
        invariant
            j <= n,
            n == records@.len(),
            i < n,
            rs == records@.map_values(|r: RootRecord| record_view(r)),
            canonical@.len() == n,
            ci@ == canon_of(rs[i as int]),
            ui == rs[i as int].1,
            forall|k: int|
                0 <= k < n ==> crate::runtime::status::opt_view(#[trigger] canonical@[k]) == match rs[k].0 {
                    Some(r) => Some(spec_canonical_root(r)),
                    None => None,
                },
            forall|k: int| 0 <= k < j ==> !outranks(rs, k, i as int),
        decreases n - j,
    {
        assert(rs[j as int] == record_view(records@[j as int]));
        assert(canonical@[j as int] == canonical[j as int]);
        if j != i {
            match &canonical[j] {
                Some(cj) => {
                    assert(rs[j as int].0 is Some);
                    let uj = records[j].updated_at;
                    if cj.eq(ci) && (uj > ui || (uj == ui && j > i)) {
                        assert(outranks(rs, j as int, i as int));
                        return true;
                    }
                },
                None => {},
            }
        }
        j = j + 1;
    }
    false
}

/// Plan the canonicalization and deduplication of stored project roots.
pub fn plan_root_dedup(records: &Vec<RootRecord>) -> (p: RootDedupPlan)
    ensures
        p.canonical@.len() == records@.len(),
        forall|i: int|
            0 <= i < records@.len() ==> crate::runtime::status::opt_view(#[trigger] p.canonical@[i])
                == match record_view(records@[i]).0 {
                Some(r) => Some(spec_canonical_root(r)),
                None => None,
            },
        increasing(p.rewrite@),
        forall|k: usize|
            p.rewrite@.contains(k) <==> (k < records@.len() && spec_rewritten(
                records@.map_values(|r: RootRecord| record_view(r)),
                k as int,
            )),
        increasing(p.drop@),
        forall|k: usize|
            p.drop@.contains(k) <==> (k < records@.len() && spec_dropped(
                records@.map_values(|r: RootRecord| record_view(r)),
                k as int,
            )),
{
    let ghost rs = records@.map_values(|r: RootRecord| record_view(r));
    let n = records.len();
    let mut canonical: Vec<Option<String>> = Vec::new();
    let mut i: usize = 0;
    while i < n
        invariant
            i <= n,
            n == records@.len(),
            rs == records@.map_values(|r: RootRecord| record_view(r)),
            canonical@.len() == i,
            forall|k: int|
                0 <= k < i ==> crate::runtime::status::opt_view(#[trigger] canonical@[k]) == match rs[k].0 {
                    Some(r) => Some(spec_canonical_root(r)),
                    None => None,
                },
        decreases n - i,
    {
        let c = match &records[i].root_path {
            Some(r) => Some(canonicalize_root_path(r.as_str())),
            None => None,
        };
        canonical.push(c);
        i = i + 1;
    }
    let mut rewrite: Vec<usize> = Vec::new();
    let mut drop: Vec<usize> = Vec::new();
    let mut i: usize = 0;
    while i < n
        invariant
            i <= n,
            n == records@.len(),
            rs == records@.map_values(|r: RootRecord| record_view(r)),
            canonical@.len() == n,
            forall|k: int|
                0 <= k < n ==> crate::runtime::status::opt_view(#[trigger] canonical@[k]) == match rs[k].0 {
                    Some(r) => Some(spec_canonical_root(r)),
                    None => None,
                },
            increasing(rewrite@),
            forall|k: usize| rewrite@.contains(k) <==> (k < i && spec_rewritten(rs, k as int)),
            increasing(drop@),
            forall|k: usize| drop@.contains(k) <==> (k < i && spec_dropped(rs, k as int)),
            forall|k: int| 0 <= k < rewrite@.len() ==> rewrite@[k] < i,
            forall|k: int| 0 <= k < drop@.len() ==> drop@[k] < i,
        decreases n - i,
    {
        assert(canonical@[i as int] == canonical[i as int]);
        assert(rs[i as int] == record_view(records@[i as int]));
        let ghost before_rw = rewrite@;
        let ghost before_dr = drop@;
        match (&records[i].root_path, &canonical[i]) {
            (Some(root), Some(c)) => {
                assert(rs[i as int].0 == Some(root@));
                assert(canon_of(rs[i as int]) == c@);
                if !c.eq(root) {
                    proof { lemma_push_index(rewrite@, i); }
                    rewrite.push(i);
                } else {
                    proof { lemma_keep_index(rewrite@, i); }
                }
                if is_fs_root(c) || is_outranked(records, &canonical, i, Ghost(rs)) {
                    proof { lemma_push_index(drop@, i); }
                    drop.push(i);
                } else {
                    proof { lemma_keep_index(drop@, i); }
                }
            },
            _ => {
                proof {
                    if rs[i as int].0 is Some {
                        assert(canonical@[i as int] is Some);
                    }
                    lemma_keep_index(rewrite@, i);
                    lemma_keep_index(drop@, i);
                }
            },
        }
        proof {
            assert forall|k: usize| rewrite@.contains(k) <==> (k < i + 1 && spec_rewritten(rs, k as int)) by {
                if k == i {
                } else {
                    assert(rewrite@.contains(k) == before_rw.contains(k));
                }
            }
            assert forall|k: usize| drop@.contains(k) <==> (k < i + 1 && spec_dropped(rs, k as int)) by {
                if k == i {
                } else {
                    assert(drop@.contains(k) == before_dr.contains(k));
                }
            }
        }
        i = i + 1;
    }
    RootDedupPlan { canonical, rewrite, drop }
}

} // verus!
