//! The runtime index: metadata of indexed files, kept in memory and keyed
//! by their path relative to the project root, so that lookups need no
//! database query.
use vstd::prelude::*;

verus! {

/// Lightweight metadata for a single indexed file.
#[derive(Debug)]
pub struct FileEntry {
    /// Record id of the owning project.
    pub project_id: String,
    /// Record id of the `file_data` row.
    pub file_data_id: String,
    /// Path relative to the project root.
    pub relative_path: String,
    /// SHA-256 content hash.
    pub content_hash: String,
    /// Last modification time from the filesystem.
    pub last_modified: std::time::SystemTime,
}

/// `a` and `b` hold the same metadata.
pub open spec fn same_entry(a: FileEntry, b: FileEntry) -> bool {
    &&& a.project_id@ == b.project_id@
    &&& a.file_data_id@ == b.file_data_id@
    &&& a.relative_path@ == b.relative_path@
    &&& a.content_hash@ == b.content_hash@
    &&& a.last_modified == b.last_modified
}

impl FileEntry {
    /// A copy of the entry.
    pub fn duplicate(&self) -> (e: FileEntry)
        ensures
            same_entry(e, *self),
    {
        FileEntry {
            project_id: self.project_id.clone(),
            file_data_id: self.file_data_id.clone(),
            relative_path: self.relative_path.clone(),
            content_hash: self.content_hash.clone(),
            last_modified: self.last_modified,
        }
    }
}

/// The entry kept for `path`: the last one with that relative path.
pub open spec fn find_entry(entries: Seq<FileEntry>, path: Seq<char>) -> Option<FileEntry>
    decreases entries.len(),
{
    if entries.len() == 0 {
        None
    } else if entries.last().relative_path@ == path {
        Some(entries.last())
    } else {
        find_entry(entries.drop_last(), path)
    }
}

/// In-memory index of tracked files, keyed by relative path.
#[derive(Debug)]
pub struct RuntimeIndex {
    entries: Vec<FileEntry>,
}

impl RuntimeIndex {
    /// No two entries share a relative path.
    pub closed spec fn wf(self) -> bool {
        forall|i: int, j: int|
            0 <= i < j < self.entries@.len() ==> (#[trigger] self.entries@[i]).relative_path@ != (
            #[trigger] self.entries@[j]).relative_path@
    }

    /// The entry the index holds for `path`, if any.
    pub closed spec fn lookup(self, path: Seq<char>) -> Option<FileEntry> {
        find_entry(self.entries@, path)
    }

    /// The number of files indexed.
    pub closed spec fn size(self) -> nat {
        self.entries@.len()
    }

    /// An empty runtime index.
    pub fn new() -> (r: RuntimeIndex)
        ensures
            r.wf(),
            r.size() == 0,
            forall|p: Seq<char>| r.lookup(p) is None,
    {
        RuntimeIndex { entries: Vec::new() }
    }

    /// Inserts an entry, replacing the one with the same relative path.
    pub fn insert(&mut self, entry: FileEntry)
        requires
            old(self).wf(),
        ensures
            final(self).wf(),
            final(self).lookup(entry.relative_path@) == Some(entry),
            forall|p: Seq<char>| p != entry.relative_path@ ==> final(self).lookup(p) == old(self).lookup(p),
            old(self).lookup(entry.relative_path@) is Some ==> final(self).size() == old(self).size(),
            old(self).lookup(entry.relative_path@) is None ==> final(self).size() == old(self).size() + 1,
    {
        let ghost key = entry.relative_path@;
        let ghost s = self.entries@;
        let mut i: usize = 0;
        while i < self.entries.len()
            invariant
                i <= self.entries@.len(),
                s == self.entries@,
                key == entry.relative_path@,
                old(self).entries@ == s,
                forall|p: int, q: int|
                    0 <= p < q < s.len() ==> (#[trigger] s[p]).relative_path@ != (
                    #[trigger] s[q]).relative_path@,
                forall|k: int| 0 <= k < i ==> (#[trigger] s[k]).relative_path@ != key,
            decreases self.entries@.len() - i,
        {
            if crate::text::str_eq(self.entries[i].relative_path.as_str(), entry.relative_path.as_str()) {
                proof {
                    lemma_find_replace(s, i as int, entry);
                    use_wf_find(s, i as int);
                }
                self.entries.set(i, entry);
                return;
            }
            i = i + 1;
        }
        proof {
            lemma_find_absent(s, key);
        }
        self.entries.push(entry);
        proof {
            let t = self.entries@;
            assert(t.drop_last() =~= s);
            assert forall|p: int, q: int| 0 <= p < q < t.len() implies (#[trigger] t[p]).relative_path@
                != (#[trigger] t[q]).relative_path@ by {
                if q < s.len() {
                    assert(t[p] == s[p] && t[q] == s[q]);
                } else {
                    assert(t[p] == s[p]);
                }
            }
        }
    }

    /// A copy of the entry for `relative_path`, if any.
    pub fn get(&self, relative_path: &str) -> (r: Option<FileEntry>)
        requires
            self.wf(),
        ensures
            match self.lookup(relative_path@) {
                Some(e) => r matches Some(c) && same_entry(c, e),
                None => r is None,
            },
    {
        let ghost s = self.entries@;
        let mut i: usize = 0;
        while i < self.entries.len()
            invariant
                i <= self.entries@.len(),
                s == self.entries@,
                forall|p: int, q: int|
                    0 <= p < q < s.len() ==> (#[trigger] s[p]).relative_path@ != (
                    #[trigger] s[q]).relative_path@,
                forall|k: int| 0 <= k < i ==> (#[trigger] s[k]).relative_path@ != relative_path@,
            decreases self.entries@.len() - i,
        {
            if crate::text::str_eq(self.entries[i].relative_path.as_str(), relative_path) {
                proof {
                    use_wf_find(s, i as int);
                }
                return Some(self.entries[i].duplicate());
            }
            i = i + 1;
        }
        proof {
            lemma_find_absent(s, relative_path@);
        }
        None
    }
}

proof fn lemma_find_absent(s: Seq<FileEntry>, key: Seq<char>)
    requires
        forall|k: int| 0 <= k < s.len() ==> (#[trigger] s[k]).relative_path@ != key,
    ensures
        find_entry(s, key) is None,
    decreases s.len(),
{
    if s.len() > 0 {
        assert(s[s.len() - 1].relative_path@ != key);
        assert forall|k: int| 0 <= k < s.drop_last().len() implies (
        #[trigger] s.drop_last()[k]).relative_path@ != key by {
            assert(s.drop_last()[k] == s[k]);
        }
        lemma_find_absent(s.drop_last(), key);
    }
}

proof fn use_wf_find(s: Seq<FileEntry>, i: int)
    requires
        0 <= i < s.len(),
        forall|p: int, q: int|
            0 <= p < q < s.len() ==> (#[trigger] s[p]).relative_path@ != (#[trigger] s[q]).relative_path@,
    ensures
        find_entry(s, s[i].relative_path@) == Some(s[i]),
    decreases s.len(),
{
    if i == s.len() - 1 {
    } else {
        assert(s[s.len() - 1].relative_path@ != s[i].relative_path@);
        let t = s.drop_last();
        assert(t[i] == s[i]);
        assert forall|p: int, q: int| 0 <= p < q < t.len() implies (#[trigger] t[p]).relative_path@
            != (#[trigger] t[q]).relative_path@ by {
            assert(t[p] == s[p] && t[q] == s[q]);
        }
        use_wf_find(t, i);
    }
}

proof fn lemma_find_replace(s: Seq<FileEntry>, i: int, e: FileEntry)
    requires
        0 <= i < s.len(),
        s[i].relative_path@ == e.relative_path@,
        forall|p: int, q: int|
            0 <= p < q < s.len() ==> (#[trigger] s[p]).relative_path@ != (#[trigger] s[q]).relative_path@,
    ensures
        find_entry(s.update(i, e), e.relative_path@) == Some(e),
        forall|k: Seq<char>| k != e.relative_path@ ==> find_entry(s.update(i, e), k) == find_entry(s, k),
        forall|p: int, q: int|
            0 <= p < q < s.len() ==> (#[trigger] s.update(i, e)[p]).relative_path@ != (
            #[trigger] s.update(i, e)[q]).relative_path@,
    decreases s.len(),
{
    let u = s.update(i, e);
    assert forall|p: int, q: int| 0 <= p < q < s.len() implies (#[trigger] u[p]).relative_path@
        != (#[trigger] u[q]).relative_path@ by {
        assert(u[p].relative_path@ == s[p].relative_path@);
        assert(u[q].relative_path@ == s[q].relative_path@);
    }
    if i == s.len() - 1 {
        assert(u.drop_last() =~= s.drop_last());
        assert forall|k: Seq<char>| k != e.relative_path@ implies find_entry(u, k) == find_entry(s, k) by {
            assert(u.last() == e);
        }
    } else {
        let t = s.drop_last();
        assert(u.drop_last() =~= t.update(i, e));
        assert(u.last() == s.last());
        assert forall|p: int, q: int| 0 <= p < q < t.len() implies (#[trigger] t[p]).relative_path@
            != (#[trigger] t[q]).relative_path@ by {
            assert(t[p] == s[p] && t[q] == s[q]);
        }
        assert(s.last().relative_path@ != s[i].relative_path@);
        lemma_find_replace(t, i, e);
        assert forall|k: Seq<char>| k != e.relative_path@ implies find_entry(u, k) == find_entry(s, k) by {
            assert(find_entry(t.update(i, e), k) == find_entry(t, k));
        }
    }
}

} // verus!
