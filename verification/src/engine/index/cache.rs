//! Least-recently-used cache for file metadata entries.
use vstd::prelude::*;
use vstd::string::StringExecFns;

verus! {

/// Default capacity of the file metadata cache.
pub const MAX_CACHE_ENTRIES: usize = 1000;

/// The contents of an LRU cache, most recently used first.
pub type LruView<V> = Seq<(Seq<char>, V)>;

/// Whether `k` is a key of `s`.
pub open spec fn has_key<V>(s: LruView<V>, k: Seq<char>) -> bool {
    exists|i: int| 0 <= i < s.len() && #[trigger] s[i].0 == k
}

/// The position of key `k` in `s`.
pub open spec fn key_pos<V>(s: LruView<V>, k: Seq<char>) -> int {
    choose|i: int| 0 <= i < s.len() && #[trigger] s[i].0 == k
}

/// No key occurs twice.
pub open spec fn keys_distinct<V>(s: LruView<V>) -> bool {
    forall|i: int, j: int| 0 <= i < j < s.len() ==> s[i].0 != s[j].0
}

/// The contents after a lookup of `k`: a present key moves to the front.
pub open spec fn spec_touch<V>(s: LruView<V>, k: Seq<char>) -> LruView<V> {
    if has_key(s, k) {
        let i = key_pos(s, k);
        seq![s[i]] + s.remove(i)
    } else {
        s
    }
}

/// The contents after storing `v` under `k` in a cache of capacity `cap`:
/// the entry goes to the front; a present key is replaced in place of its
/// old entry; otherwise, when the cache is full, the least recently used
/// entry is evicted.
pub open spec fn spec_put<V>(s: LruView<V>, k: Seq<char>, v: V, cap: nat) -> LruView<V> {
    if has_key(s, k) {
        seq![(k, v)] + s.remove(key_pos(s, k))
    } else if s.len() >= cap && s.len() > 0 {
        seq![(k, v)] + s.drop_last()
    } else {
        seq![(k, v)] + s
    }
}

/// LRU cache keyed by string.
#[derive(Debug)]
pub struct LruCache<V> {
    entries: Vec<(String, V)>,
    capacity: usize,
}

impl<V> View for LruCache<V> {
    type V = LruView<V>;

    closed spec fn view(&self) -> LruView<V> {
        self.entries@.map_values(|e: (String, V)| (e.0@, e.1))
    }
}

impl<V: Clone> LruCache<V> {
    /// The capacity the cache was made with.
    pub closed spec fn spec_capacity(&self) -> nat {
        self.capacity as nat
    }

    /// Keys are distinct and the cache holds at most `max(capacity, 1)` entries.
    pub open spec fn wf(&self) -> bool {
        &&& keys_distinct(self@)
        &&& self@.len() <= if self.spec_capacity() == 0 { 1 } else { self.spec_capacity() }
    }

    /// An empty cache of the given capacity.
    pub fn new(capacity: usize) -> (c: Self)
        ensures
            c@ == Seq::<(Seq<char>, V)>::empty(),
            c.spec_capacity() == capacity,
            c.wf(),
    {
        let c = LruCache { entries: Vec::new(), capacity };
        assert(c@ =~= Seq::<(Seq<char>, V)>::empty());
        c
    }

    /// The number of cached entries.
    pub fn len(&self) -> (n: usize)
        ensures
            n == self@.len(),
    {
        self.entries.len()
    }

    fn find(&self, key: &String) -> (r: Option<usize>)
        ensures
            match r {
                Some(i) => i < self@.len() && self@[i as int].0 == key@,
                None => !has_key(self@, key@),
            },
    {
        let mut i: usize = 0;
        while i < self.entries.len()
            invariant
                i <= self.entries@.len(),
                self@.len() == self.entries@.len(),
                forall|j: int| 0 <= j < i ==> self@[j].0 != key@,
            decreases self.entries@.len() - i,
        {
            assert(self@[i as int].0 == self.entries@[i as int].0@);
            if self.entries[i].0 == *key {
                return Some(i);
            }
            i = i + 1;
        }
        None
    }

    proof fn lemma_pos_unique(s: LruView<V>, k: Seq<char>, i: int)
        requires
            keys_distinct(s),
            0 <= i < s.len(),
            s[i].0 == k,
        ensures
            has_key(s, k),
            key_pos(s, k) == i,
    {
        assert(has_key(s, k));
        let p = key_pos(s, k);
        if p != i {
            if p < i {
                assert(s[p].0 != s[i].0);
            } else {
                assert(s[i].0 != s[p].0);
            }
        }
    }

    /// Move the entry at `pos` to the front.
    fn move_to_front(&mut self, pos: usize)
        requires
            pos < old(self)@.len(),
        ensures
            final(self)@ == seq![old(self)@[pos as int]] + old(self)@.remove(pos as int),
            final(self).spec_capacity() == old(self).spec_capacity(),
    {
        let e = self.entries.remove(pos);
        self.entries.insert(0, e);
        assert(self@ =~= seq![old(self)@[pos as int]] + old(self)@.remove(pos as int));
    }

    /// Look up `key`, marking it most recently used. Returns a clone of the
    /// cached value.
    pub fn get(&mut self, key: &str) -> (r: Option<V>)
        requires
            old(self).wf(),
        ensures
            final(self).wf(),
            final(self)@ == spec_touch(old(self)@, key@),
            final(self).spec_capacity() == old(self).spec_capacity(),
            match r {
                Some(v) => has_key(old(self)@, key@) && cloned(
                    old(self)@[key_pos(old(self)@, key@)].1,
                    v,
                ),
                None => !has_key(old(self)@, key@),
            },
    {
        let k = String::from_str(key);
        match self.find(&k) {
            Some(pos) => {
                proof {
                    Self::lemma_pos_unique(self@, key@, pos as int);
                }
                self.move_to_front(pos);
                proof {
                    self.lemma_front_distinct(old(self)@, pos as int);
                }
                assert(self@[0] == old(self)@[pos as int]);
                assert(self.entries@[0].1 == self@[0].1);
                let v = self.entries[0].1.clone();
                assert(cloned(self.entries@[0].1, v));
                Some(v)
            },
            None => None,
        }
    }

    proof fn lemma_front_distinct(&self, old_s: LruView<V>, pos: int)
        requires
            keys_distinct(old_s),
            0 <= pos < old_s.len(),
            self@ == seq![old_s[pos]] + old_s.remove(pos),
        ensures
            keys_distinct(self@),
            self@.len() == old_s.len(),
    {
        let s = self@;
        assert forall|i: int, j: int| 0 <= i < j < s.len() implies s[i].0 != s[j].0 by {
            let oj = if j - 1 < pos { j - 1 } else { j };
            if i == 0 {
                assert(s[j] == old_s[oj]);
                assert(oj != pos);
            } else {
                let oi = if i - 1 < pos { i - 1 } else { i };
                assert(s[i] == old_s[oi]);
                assert(s[j] == old_s[oj]);
                assert(oi < oj);
            }
        }
    }

    /// Store `value` under `key` as the most recently used entry, evicting
    /// the least recently used entry when a new key arrives at a full cache.
    pub fn put(&mut self, key: String, value: V)
        requires
            old(self).wf(),
        ensures
            final(self).wf(),
            final(self)@ == spec_put(old(self)@, key@, value, old(self).spec_capacity()),
            final(self).spec_capacity() == old(self).spec_capacity(),
    {
        let ghost kv = key@;
        match self.find(&key) {
            Some(pos) => {
                proof {
                    Self::lemma_pos_unique(self@, kv, pos as int);
                }
                self.entries.remove(pos);
                self.entries.insert(0, (key, value));
                proof {
                    let o = old(self)@;
                    assert(self@ =~= seq![(kv, value)] + o.remove(pos as int));
                    let s = self@;
                    assert forall|i: int, j: int| 0 <= i < j < s.len() implies s[i].0 != s[j].0 by {
                        let oj = if j - 1 < pos { j - 1 } else { j };
                        assert(s[j] == o[oj]);
                        if i == 0 {
                            assert(o[pos as int].0 == kv);
                            assert(oj != pos);
                        } else {
                            let oi = if i - 1 < pos { i - 1 } else { i };
                            assert(s[i] == o[oi]);
                        }
                    }
                }
            },
            None => {
                if self.entries.len() >= self.capacity && self.entries.len() > 0 {
                    self.entries.pop();
                }
                self.entries.insert(0, (key, value));
                proof {
                    let o = old(self)@;
                    let s = self@;
                    if o.len() >= self.capacity && o.len() > 0 {
                        assert(s =~= seq![(kv, value)] + o.drop_last());
                        assert forall|i: int, j: int| 0 <= i < j < s.len() implies s[i].0
                            != s[j].0 by {
                            assert(s[j] == o[j - 1]);
                            if i > 0 {
                                assert(s[i] == o[i - 1]);
                            } else if o[j - 1].0 == kv {
                                assert(has_key(o, kv));
                            }
                        }
                    } else {
                        assert(s =~= seq![(kv, value)] + o);
                        assert forall|i: int, j: int| 0 <= i < j < s.len() implies s[i].0
                            != s[j].0 by {
                            assert(s[j] == o[j - 1]);
                            if i > 0 {
                                assert(s[i] == o[i - 1]);
                            } else if o[j - 1].0 == kv {
                                assert(has_key(o, kv));
                            }
                        }
                    }
                }
            },
        }
    }
}

/// A value just stored is what the next lookup of its key returns, and it
/// is then the most recently used entry.
pub proof fn lemma_put_then_get<V>(s: LruView<V>, k: Seq<char>, v: V, cap: nat)
    ensures
        has_key(spec_put(s, k, v, cap), k),
        key_pos(spec_put(s, k, v, cap), k) == 0 || !keys_distinct(spec_put(s, k, v, cap)),
        spec_put(s, k, v, cap)[0] == (k, v),
{
    let t = spec_put(s, k, v, cap);
    assert(t[0] == (k, v));
    assert(t[0].0 == k);
    assert(has_key(t, k));
    if keys_distinct(t) {
        let p = key_pos(t, k);
        if p != 0 {
            assert(t[0].0 != t[p].0);
        }
    }
}

/// Storing a key already present never evicts another entry, and storing a
/// new key into a full cache evicts exactly the least recently used entry.
pub proof fn lemma_put_eviction<V>(s: LruView<V>, k: Seq<char>, v: V, cap: nat)
    ensures
        has_key(s, k) ==> spec_put(s, k, v, cap).len() == s.len(),
        !has_key(s, k) && s.len() >= cap && s.len() > 0 ==> spec_put(s, k, v, cap)
            == seq![(k, v)] + s.drop_last(),
        !has_key(s, k) && s.len() < cap ==> spec_put(s, k, v, cap).len() == s.len() + 1,
{
}

} // verus!
