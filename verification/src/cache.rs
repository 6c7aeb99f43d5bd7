//! The in-memory query cache: a mapping from cache key to cached result.
//!
//! Entries are held in insertion order, most recently written last, so that
//! iteration (used when aggregation input is built) is deterministic. The
//! embedding application serializes the entry list returned by
//! [`QueryCache::to_entries`] to the snapshot file after every mutation and
//! rebuilds the cache with [`QueryCache::from_entries`] on start; the
//! contracts of that pair pin the reloaded mapping to the one written.

use vstd::prelude::*;
use crate::models::Query;

verus! {

/// The mapping an entry list denotes: later entries win over earlier ones.
pub open spec fn entries_map(s: Seq<(String, Query)>) -> Map<Seq<char>, Query>
    decreases s.len(),
{
    if s.len() == 0 {
        Map::empty()
    } else {
        entries_map(s.drop_last()).insert(s.last().0@, s.last().1)
    }
}

/// No two entries share a key.
pub open spec fn distinct_keys(s: Seq<(String, Query)>) -> bool {
    forall|i: int, j: int| 0 <= i < j < s.len() ==> s[i].0@ != s[j].0@
}

/// A key is in the mapping exactly when some entry holds it.
pub proof fn lemma_entries_map_domain(s: Seq<(String, Query)>, k: Seq<char>)
    ensures
        entries_map(s).contains_key(k) <==> exists|i: int| 0 <= i < s.len() && s[i].0@ == k,
    decreases s.len(),
{
    if s.len() > 0 {
        lemma_entries_map_domain(s.drop_last(), k);
        if s.last().0@ == k {
            assert(s[s.len() - 1].0@ == k);
        } else {
            if entries_map(s.drop_last()).contains_key(k) {
                let i = choose|i: int| 0 <= i < s.drop_last().len() && s.drop_last()[i].0@ == k;
                assert(s[i].0@ == k);
            }
            if exists|i: int| 0 <= i < s.len() && s[i].0@ == k {
                let i = choose|i: int| 0 <= i < s.len() && s[i].0@ == k;
                assert(i < s.len() - 1);
                assert(s.drop_last()[i].0@ == k);
            }
        }
    }
}

/// With distinct keys, the mapping sends each entry's key to its value.
pub proof fn lemma_entries_map_get(s: Seq<(String, Query)>, i: int)
    requires
        distinct_keys(s),
        0 <= i < s.len(),
    ensures
        entries_map(s).contains_key(s[i].0@),
        entries_map(s)[s[i].0@] == s[i].1,
    decreases s.len(),
{
    if i == s.len() - 1 {
    } else {
        assert(distinct_keys(s.drop_last()));
        assert(s.drop_last()[i] == s[i]);
        lemma_entries_map_get(s.drop_last(), i);
        assert(s[i].0@ != s.last().0@);
    }
}

/// Appending an entry inserts its key into the mapping.
pub proof fn lemma_entries_map_push(s: Seq<(String, Query)>, p: (String, Query))
    ensures
        entries_map(s.push(p)) == entries_map(s).insert(p.0@, p.1),
{
    assert(s.push(p).drop_last() =~= s);
    assert(s.push(p).last() == p);
}

/// Removing the one entry that holds a key removes that key from the
/// mapping.
pub proof fn lemma_entries_map_remove(s: Seq<(String, Query)>, i: int)
    requires
        distinct_keys(s),
        0 <= i < s.len(),
    ensures
        entries_map(s.remove(i)) == entries_map(s).remove(s[i].0@),
    decreases s.len(),
{
    let k = s[i].0@;
    if i == s.len() - 1 {
        assert(s.remove(i) =~= s.drop_last());
        lemma_entries_map_domain(s.drop_last(), k);
        assert(forall|j: int| 0 <= j < s.drop_last().len() ==> s.drop_last()[j] == s[j]);
        assert(!entries_map(s.drop_last()).contains_key(k));
        assert(entries_map(s.drop_last()) =~= entries_map(s).remove(k));
    } else {
        let dl = s.drop_last();
        assert(distinct_keys(dl));
        assert(dl[i] == s[i]);
        lemma_entries_map_remove(dl, i);
        assert(s.remove(i).drop_last() =~= dl.remove(i));
        assert(s.remove(i).last() == s.last());
        assert(k != s.last().0@);
        assert(entries_map(s.remove(i)) == entries_map(dl.remove(i)).insert(
            s.last().0@,
            s.last().1,
        ));
        assert(entries_map(dl).remove(k).insert(s.last().0@, s.last().1) =~= entries_map(
            dl,
        ).insert(s.last().0@, s.last().1).remove(k));
    }
}

/// The in-memory mapping from cache key to cached result.
pub struct QueryCache {
    entries: Vec<(String, Query)>,
}

impl View for QueryCache {
    type V = Map<Seq<char>, Query>;

    closed spec fn view(&self) -> Map<Seq<char>, Query> {
        entries_map(self.entries@)
    }
}

impl QueryCache {
    /// The entry list in storage order, most recently written last.
    pub closed spec fn entry_seq(&self) -> Seq<(String, Query)> {
        self.entries@
    }

    /// Well-formed: no two entries share a key.
    pub open spec fn wf(&self) -> bool {
        distinct_keys(self.entry_seq())
    }

    /// An empty cache.
    pub fn new() -> (c: QueryCache)
        ensures
            c.wf(),
            c@ == Map::<Seq<char>, Query>::empty(),
            c.entry_seq() == Seq::<(String, Query)>::empty(),
    {
        QueryCache { entries: Vec::new() }
    }

    /// How many entries the cache holds.
    pub fn len(&self) -> (n: usize)
        ensures
            n == self.entry_seq().len(),
            self.wf() ==> n == self@.dom().len(),
    {
        proof {
            if self.wf() {
                self.lemma_dom_len();
            }
        }
        self.entries.len()
    }

    /// With distinct keys the domain is as large as the entry list.
    proof fn lemma_dom_len(&self)
        requires
            self.wf(),
        ensures
            self@.dom().len() == self.entry_seq().len(),
    {
        Self::lemma_dom_len_seq(self.entries@);
    }

    /// Helper: domain size of the mapping of a distinct-keyed list.
    proof fn lemma_dom_len_seq(s: Seq<(String, Query)>)
        requires
            distinct_keys(s),
        ensures
            entries_map(s).dom().len() == s.len(),
            entries_map(s).dom().finite(),
        decreases s.len(),
    {
        if s.len() == 0 {
            assert(entries_map(s).dom() =~= Set::<Seq<char>>::empty());
        } else {
            assert(distinct_keys(s.drop_last()));
            Self::lemma_dom_len_seq(s.drop_last());
            lemma_entries_map_domain(s.drop_last(), s.last().0@);
            assert(!entries_map(s.drop_last()).contains_key(s.last().0@));
            assert(entries_map(s).dom() =~= entries_map(s.drop_last()).dom().insert(
                s.last().0@,
            ));
        }
    }

    /// The entry at a position, for in-order iteration.
    pub fn entry_at(&self, i: usize) -> (p: &(String, Query))
        requires
            i < self.entry_seq().len(),
        ensures
            *p == self.entry_seq()[i as int],
    {
        &self.entries[i]
    }

    /// The position of the entry holding a key, if any.
    fn find_index(&self, key: &String) -> (r: Option<usize>)
        requires
            self.wf(),
        ensures
            match r {
                Some(i) => i < self.entry_seq().len() && self.entry_seq()[i as int].0@ == key@,
                None => forall|j: int|
                    0 <= j < self.entry_seq().len() ==> self.entry_seq()[j].0@ != key@,
            },
    {
        let n = self.entries.len();
        let mut i: usize = 0;
        while i < n
            invariant
                i <= n,
                n == self.entries@.len(),
                forall|j: int| 0 <= j < i ==> self.entries@[j].0@ != key@,
            decreases n - i,
        {
            if self.entries[i].0 == *key {
                return Some(i);
            }
            i = i + 1;
        }
        None
    }

    /// Pure lookup: the cached result at a key, if present. No mutation.
    pub fn get(&self, key: &String) -> (r: Option<&Query>)
        requires
            self.wf(),
        ensures
            match r {
                Some(q) => self@.contains_key(key@) && *q == self@[key@],
                None => !self@.contains_key(key@),
            },
    {
        proof {
            lemma_entries_map_domain(self.entries@, key@);
        }
        match self.find_index(key) {
            Some(i) => {
                proof {
                    lemma_entries_map_get(self.entries@, i as int);
                }
                Some(&self.entries[i].1)
            },
            None => None,
        }
    }

    /// Inserts or replaces the entry at a key and returns the displaced
    /// value, if any. The written entry moves to the end of the iteration
    /// order.
    pub fn put(&mut self, key: String, value: Query) -> (displaced: Option<Query>)
        requires
            old(self).wf(),
        ensures
            final(self).wf(),
            final(self)@ == old(self)@.insert(key@, value),
            match displaced {
                Some(q) => old(self)@.contains_key(key@) && q == old(self)@[key@],
                None => !old(self)@.contains_key(key@),
            },
    {
        proof {
            lemma_entries_map_domain(self.entries@, key@);
        }
        let ghost s0 = self.entries@;
        match self.find_index(&key) {
            Some(i) => {
                proof {
                    lemma_entries_map_get(s0, i as int);
                    lemma_entries_map_remove(s0, i as int);
                }
                let pair = self.entries.remove(i);
                proof {
                    assert(forall|a: int, b: int|
                        0 <= a < b < self.entries@.len() ==> #[trigger] self.entries@[a].0@
                            != #[trigger] self.entries@[b].0@) by {
                        assert(forall|a: int|
                            0 <= a < self.entries@.len() ==> self.entries@[a] == if a < i as int {
                                s0[a]
                            } else {
                                s0[a + 1]
                            });
                    }
                    // no remaining entry holds the key
                    assert(forall|a: int|
                        0 <= a < self.entries@.len() ==> #[trigger] self.entries@[a].0@ != key@)
                        by {
                        assert(forall|a: int|
                            0 <= a < self.entries@.len() ==> self.entries@[a] == if a < i as int {
                                s0[a]
                            } else {
                                s0[a + 1]
                            });
                    }
                    lemma_entries_map_push(self.entries@, (key, value));
                }
                self.entries.push((key, value));
                proof {
                    assert(final(self)@ =~= old(self)@.insert(final(self).entry_seq().last().0@,
                        value)) by {
                        assert(entries_map(s0.remove(i as int)) == entries_map(s0).remove(
                            s0[i as int].0@,
                        ));
                    }
                    assert(distinct_keys(final(self).entry_seq()));
                }
                Some(pair.1)
            },
            None => {
                proof {
                    lemma_entries_map_push(self.entries@, (key, value));
                }
                self.entries.push((key, value));
                proof {
                    assert(distinct_keys(final(self).entry_seq()));
                }
                None
            },
        }
    }

    /// Removes the entry at a key, returning the key and value that were
    /// held there.
    pub fn remove(&mut self, key: &String) -> (r: Option<(String, Query)>)
        requires
            old(self).wf(),
        ensures
            final(self).wf(),
            match r {
                Some(pair) => {
                    &&& old(self)@.contains_key(key@)
                    &&& pair.0@ == key@
                    &&& pair.1 == old(self)@[key@]
                    &&& final(self)@ == old(self)@.remove(key@)
                },
                None => {
                    &&& !old(self)@.contains_key(key@)
                    &&& *final(self) == *old(self)
                },
            },
    {
        proof {
            lemma_entries_map_domain(self.entries@, key@);
        }
        let ghost s0 = self.entries@;
        match self.find_index(key) {
            Some(i) => {
                proof {
                    lemma_entries_map_get(s0, i as int);
                    lemma_entries_map_remove(s0, i as int);
                }
                let pair = self.entries.remove(i);
                proof {
                    assert(forall|a: int, b: int|
                        0 <= a < b < self.entries@.len() ==> #[trigger] self.entries@[a].0@
                            != #[trigger] self.entries@[b].0@) by {
                        assert(forall|a: int|
                            0 <= a < self.entries@.len() ==> self.entries@[a] == if a < i as int {
                                s0[a]
                            } else {
                                s0[a + 1]
                            });
                    }
                }
                Some(pair)
            },
            None => None,
        }
    }

    /// Empties the cache.
    pub fn clear(&mut self)
        ensures
            final(self).wf(),
            final(self)@ == Map::<Seq<char>, Query>::empty(),
            final(self).entry_seq() == Seq::<(String, Query)>::empty(),
    {
        self.entries.clear();
    }

    /// The entry list to write out as a snapshot: a copy of the entries in
    /// storage order.
    pub fn to_entries(&self) -> (v: Vec<(String, Query)>)
        ensures
            v@ == self.entry_seq(),
    {
        let n = self.entries.len();
        let mut v: Vec<(String, Query)> = Vec::new();
        let mut i: usize = 0;
        while i < n
            invariant
                i <= n,
                n == self.entries@.len(),
                v@ == self.entries@.take(i as int),
            decreases n - i,
        {
            let pair = &self.entries[i];
            v.push((pair.0.clone(), pair.1.clone()));
            i = i + 1;
            proof {
                assert(v@ =~= self.entries@.take(i as int));
            }
        }
        proof {
            assert(self.entries@.take(n as int) =~= self.entries@);
        }
        v
    }

    /// Rebuilds a cache from a snapshot's entry list. Later entries win
    /// over earlier ones at the same key, as when the snapshot's JSON
    /// object is read.
    pub fn from_entries(list: &Vec<(String, Query)>) -> (c: QueryCache)
        ensures
            c.wf(),
            c@ == entries_map(list@),
    {
        let n = list.len();
        let mut c = QueryCache::new();
        let mut i: usize = 0;
        while i < n
            invariant
                i <= n,
                n == list@.len(),
                c.wf(),
                c@ == entries_map(list@.take(i as int)),
            decreases n - i,
        {
            let pair = &list[i];
            let _displaced = c.put(pair.0.clone(), pair.1.clone());
            i = i + 1;
            proof {
                assert(list@.take(i as int).drop_last() =~= list@.take(i - 1));
                assert(list@.take(i as int).last() == list@[i - 1]);
            }
        }
        proof {
            assert(list@.take(n as int) =~= list@);
        }
        c
    }

    /// A copy of the cache with the same entries in the same order.
    pub fn clone_cache(&self) -> (c: QueryCache)
        requires
            self.wf(),
        ensures
            c.wf(),
            c@ == self@,
            c.entry_seq() == self.entry_seq(),
    {
        let v = self.to_entries();
        let c = QueryCache { entries: v };
        c
    }
}

/// Putting a value at a key and reading the key straight back yields that
/// value, for any key and value: the contract of `put` makes the mapping
/// `old@.insert(k, v)`, and the contract of `get` reads that mapping.
pub proof fn law_put_then_get(m: Map<Seq<char>, Query>, k: Seq<char>, v: Query)
    ensures
        m.insert(k, v).contains_key(k),
        m.insert(k, v)[k] == v,
{
}

/// Writing a cache's entry list and reloading it reproduces an identical
/// key-to-result mapping: `to_entries` hands out exactly the entry list,
/// and `from_entries` rebuilds the mapping that list denotes, which is the
/// cache's own.
pub proof fn law_snapshot_round_trip(c: QueryCache, written: Seq<(String, Query)>)
    requires
        c.wf(),
        written == c.entry_seq(),
    ensures
        entries_map(written) == c@,
{
}

} // verus!
