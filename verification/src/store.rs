//! The remote store's table of cached exchanges, modelled locally.
//!
//! The remote relational store keeps one row per logical cache entry and
//! enforces uniqueness on a hash of the cache key. [`StoreTable`] is the
//! crate's model of that table: reconciliation logic runs against it and
//! is verified here, while the embedding application mirrors each insert
//! and delete onto the actual database.

use vstd::prelude::*;
use crate::models::GptModel;
use crate::models::Query;
use crate::models::QueryType;
use crate::models::Usage;
use crate::models::is_model_string;
use crate::models::lemma_model_string_injective;
use crate::models::spec_model_string;
use crate::hash::spec_hash_string;
use crate::text::contains_str;
use crate::text::spec_contains;

verus! {

/// One row of the remote store: a cached exchange plus the row identifier,
/// a creation timestamp, the literal cache key and the hash of that key
/// that the store keeps unique.
#[derive(Debug, PartialEq)]
pub struct Model {
    /// Row identifier assigned when the record is inserted.
    pub rid: u64,
    /// Creation timestamp, as rendered by the embedding application.
    pub timestamp: String,
    /// Wire name of the model that produced the response.
    pub model: String,
    /// Sampling temperature in hundredths.
    pub temperature: u32,
    /// Prompt text or battery stamp.
    pub prompt: String,
    /// The literal cache key.
    pub query_key: String,
    /// Decimal rendering of the hash of the cache key; unique in the store.
    pub query_key_hash: String,
    pub prompt_tokens: u64,
    pub completion_tokens: u64,
    pub total_tokens: u64,
    /// Elapsed processing time in milliseconds.
    pub process_time: u64,
    /// The full response payload.
    pub response: String,
    /// Cost in milli-cents.
    pub cost: u64,
}

impl Clone for Model {
    fn clone(&self) -> (r: Self)
        ensures
            r == *self,
    {
        Model {
            rid: self.rid,
            timestamp: self.timestamp.clone(),
            model: self.model.clone(),
            temperature: self.temperature,
            prompt: self.prompt.clone(),
            query_key: self.query_key.clone(),
            query_key_hash: self.query_key_hash.clone(),
            prompt_tokens: self.prompt_tokens,
            completion_tokens: self.completion_tokens,
            total_tokens: self.total_tokens,
            process_time: self.process_time,
            response: self.response.clone(),
            cost: self.cost,
        }
    }
}

/// The marker that an aggregation battery label carries: a stored key that
/// contains it is classified as an aggregation completion when read back.
pub open spec fn spec_aggregation_marker() -> Seq<char> {
    "Meta-Battery"@
}

/// The category inferred from the shape of a stored key: a key equal to
/// its own prompt was a prompt completion, a key carrying the aggregation
/// marker was an aggregation, and anything else was a document completion.
pub open spec fn spec_inferred_type(m: Model) -> QueryType {
    if m.query_key@ == m.prompt@ {
        QueryType::PromptCompletion
    } else if spec_contains(m.query_key@, spec_aggregation_marker()) {
        QueryType::AggregationCompletion
    } else {
        QueryType::DocumentCompletion
    }
}

/// The cached result a stored row denotes, marked as served from cache.
pub open spec fn spec_to_query(m: Model) -> Query {
    Query {
        prompt: m.prompt,
        cost: m.cost,
        response: m.response,
        usage: Usage {
            prompt_tokens: m.prompt_tokens,
            completion_tokens: m.completion_tokens,
            total_tokens: m.total_tokens,
        },
        process_time: m.process_time,
        model: choose|g: GptModel| spec_model_string(g) == m.model@,
        query_type: spec_inferred_type(m),
        temperature: m.temperature,
        from_cache: true,
    }
}

impl Model {
    /// Reconstructs the cached result this row denotes. The stored model
    /// name must be a known wire name; callers test with
    /// `GptModel::is_known_model_string` first.
    pub fn to_query(&self) -> (q: Query)
        requires
            is_model_string(self.model@),
        ensures
            q == spec_to_query(*self),
    {
        let model = GptModel::from_string(&self.model);
        proof {
            let g = choose|g: GptModel| spec_model_string(g) == self.model@;
            lemma_model_string_injective(model, g);
        }
        let query_type = if self.query_key == self.prompt {
            QueryType::PromptCompletion
        } else if contains_str(self.query_key.as_str(), "Meta-Battery") {
            QueryType::AggregationCompletion
        } else {
            QueryType::DocumentCompletion
        };
        Query {
            prompt: self.prompt.clone(),
            cost: self.cost,
            response: self.response.clone(),
            usage: Usage {
                prompt_tokens: self.prompt_tokens,
                completion_tokens: self.completion_tokens,
                total_tokens: self.total_tokens,
            },
            process_time: self.process_time,
            model,
            query_type,
            temperature: self.temperature,
            from_cache: true,
        }
    }
}

/// True when a stored row carries exactly the given exchange under the
/// given key and timestamp: every column but the row identifier is pinned.
pub open spec fn record_matches(m: Model, key: Seq<char>, q: Query, ts: Seq<char>) -> bool {
    &&& m.timestamp@ == ts
    &&& m.model@ == spec_model_string(q.model)
    &&& m.temperature == q.temperature
    &&& m.prompt@ == q.prompt@
    &&& m.query_key@ == key
    &&& m.query_key_hash@ == spec_hash_string(key)
    &&& m.prompt_tokens == q.usage.prompt_tokens
    &&& m.completion_tokens == q.usage.completion_tokens
    &&& m.total_tokens == q.usage.total_tokens
    &&& m.process_time == q.process_time
    &&& m.response@ == q.response@
    &&& m.cost == q.cost
}

/// Builds the store row for one cache entry: every column from the entry,
/// the key hash freshly derived, and the row identifier left at zero until
/// the table assigns one.
pub fn record_for_entry(key: &String, q: &Query, timestamp: &String) -> (m: Model)
    ensures
        record_matches(m, key@, *q, timestamp@),
        m.rid == 0,
{
    Model {
        rid: 0,
        timestamp: timestamp.clone(),
        model: q.model.to_model_string(),
        temperature: q.temperature,
        prompt: q.prompt.clone(),
        query_key: key.clone(),
        query_key_hash: crate::hash::hash_string(key),
        prompt_tokens: q.usage.prompt_tokens,
        completion_tokens: q.usage.completion_tokens,
        total_tokens: q.usage.total_tokens,
        process_time: q.process_time,
        response: q.response.clone(),
        cost: q.cost,
    }
}

/// The mapping from key hash to row that a row list denotes.
pub open spec fn records_map(s: Seq<Model>) -> Map<Seq<char>, Model>
    decreases s.len(),
{
    if s.len() == 0 {
        Map::empty()
    } else {
        records_map(s.drop_last()).insert(s.last().query_key_hash@, s.last())
    }
}

/// No two rows share a key hash, and no two rows share a row identifier.
pub open spec fn distinct_rows(s: Seq<Model>) -> bool {
    &&& forall|i: int, j: int|
        0 <= i < j < s.len() ==> s[i].query_key_hash@ != s[j].query_key_hash@
    &&& forall|i: int, j: int| 0 <= i < j < s.len() ==> s[i].rid != s[j].rid
}

/// A hash is in the mapping exactly when some row holds it.
pub proof fn lemma_records_map_domain(s: Seq<Model>, h: Seq<char>)
    ensures
        records_map(s).contains_key(h) <==> exists|i: int|
            0 <= i < s.len() && s[i].query_key_hash@ == h,
    decreases s.len(),
{
    if s.len() > 0 {
        lemma_records_map_domain(s.drop_last(), h);
        if s.last().query_key_hash@ == h {
            assert(s[s.len() - 1].query_key_hash@ == h);
        } else {
            if records_map(s.drop_last()).contains_key(h) {
                let i = choose|i: int|
                    0 <= i < s.drop_last().len() && s.drop_last()[i].query_key_hash@ == h;
                assert(s[i].query_key_hash@ == h);
            }
            if exists|i: int| 0 <= i < s.len() && s[i].query_key_hash@ == h {
                let i = choose|i: int| 0 <= i < s.len() && s[i].query_key_hash@ == h;
                assert(i < s.len() - 1);
                assert(s.drop_last()[i].query_key_hash@ == h);
            }
        }
    }
}

/// With distinct hashes, the mapping sends each row's hash to that row.
pub proof fn lemma_records_map_get(s: Seq<Model>, i: int)
    requires
        distinct_rows(s),
        0 <= i < s.len(),
    ensures
        records_map(s).contains_key(s[i].query_key_hash@),
        records_map(s)[s[i].query_key_hash@] == s[i],
    decreases s.len(),
{
    if i == s.len() - 1 {
    } else {
        assert(distinct_rows(s.drop_last()));
        assert(s.drop_last()[i] == s[i]);
        lemma_records_map_get(s.drop_last(), i);
        assert(s[i].query_key_hash@ != s.last().query_key_hash@);
    }
}

/// Appending a row inserts its hash into the mapping.
pub proof fn lemma_records_map_push(s: Seq<Model>, m: Model)
    ensures
        records_map(s.push(m)) == records_map(s).insert(m.query_key_hash@, m),
{
    assert(s.push(m).drop_last() =~= s);
    assert(s.push(m).last() == m);
}

/// Removing the one row that holds a hash removes that hash from the
/// mapping.
pub proof fn lemma_records_map_remove(s: Seq<Model>, i: int)
    requires
        distinct_rows(s),
        0 <= i < s.len(),
    ensures
        records_map(s.remove(i)) == records_map(s).remove(s[i].query_key_hash@),
    decreases s.len(),
{
    let h = s[i].query_key_hash@;
    if i == s.len() - 1 {
        assert(s.remove(i) =~= s.drop_last());
        lemma_records_map_domain(s.drop_last(), h);
        assert(forall|j: int| 0 <= j < s.drop_last().len() ==> s.drop_last()[j] == s[j]);
        assert(!records_map(s.drop_last()).contains_key(h));
        assert(records_map(s.drop_last()) =~= records_map(s).remove(h));
    } else {
        let dl = s.drop_last();
        assert(distinct_rows(dl));
        assert(dl[i] == s[i]);
        lemma_records_map_remove(dl, i);
        assert(s.remove(i).drop_last() =~= dl.remove(i));
        assert(s.remove(i).last() == s.last());
        assert(h != s.last().query_key_hash@);
        assert(records_map(s.remove(i)) == records_map(dl.remove(i)).insert(
            s.last().query_key_hash@,
            s.last(),
        ));
        assert(records_map(dl).remove(h).insert(s.last().query_key_hash@, s.last())
            =~= records_map(dl).insert(s.last().query_key_hash@, s.last()).remove(h));
    }
}

/// The model of the remote store's table: rows with unique key hashes and
/// unique row identifiers, and the next identifier the table will assign.
pub struct StoreTable {
    records: Vec<Model>,
    next_rid: u64,
}

impl View for StoreTable {
    type V = Map<Seq<char>, Model>;

    closed spec fn view(&self) -> Map<Seq<char>, Model> {
        records_map(self.records@)
    }
}

impl StoreTable {
    /// The row list in storage order.
    pub closed spec fn record_seq(&self) -> Seq<Model> {
        self.records@
    }

    /// The next row identifier the table will assign.
    pub closed spec fn spec_next_rid(&self) -> u64 {
        self.next_rid
    }

    /// Well-formed: distinct hashes, distinct identifiers, and every
    /// identifier below the next one to be assigned.
    pub open spec fn wf(&self) -> bool {
        &&& distinct_rows(self.record_seq())
        &&& 1 <= self.spec_next_rid()
        &&& forall|i: int|
            0 <= i < self.record_seq().len() ==> #[trigger] self.record_seq()[i].rid
                < self.spec_next_rid()
    }

    /// An empty table.
    pub fn new() -> (t: StoreTable)
        ensures
            t.wf(),
            t@ == Map::<Seq<char>, Model>::empty(),
            t.record_seq() == Seq::<Model>::empty(),
            t.spec_next_rid() == 1,
    {
        StoreTable { records: Vec::new(), next_rid: 1 }
    }

    /// How many rows the table holds.
    pub fn len(&self) -> (n: usize)
        ensures
            n == self.record_seq().len(),
    {
        self.records.len()
    }

    /// The next row identifier the table will assign, for callers that
    /// must check headroom before a batch of inserts.
    pub fn next_rid(&self) -> (r: u64)
        ensures
            r == self.spec_next_rid(),
    {
        self.next_rid
    }

    /// The row at a position, for in-order iteration.
    pub fn record_at(&self, i: usize) -> (m: &Model)
        requires
            i < self.record_seq().len(),
        ensures
            *m == self.record_seq()[i as int],
    {
        &self.records[i]
    }

    /// The position of the row holding a key hash, if any.
    fn find_index_by_hash(&self, h: &String) -> (r: Option<usize>)
        requires
            self.wf(),
        ensures
            match r {
                Some(i) => i < self.record_seq().len() && self.record_seq()[
                    i as int
                ].query_key_hash@ == h@,
                None => forall|j: int|
                    0 <= j < self.record_seq().len() ==> self.record_seq()[j].query_key_hash@
                        != h@,
            },
    {
        let n = self.records.len();
        let mut i: usize = 0;
        while i < n
            invariant
                i <= n,
                n == self.records@.len(),
                forall|j: int| 0 <= j < i ==> self.records@[j].query_key_hash@ != h@,
            decreases n - i,
        {
            if self.records[i].query_key_hash == *h {
                return Some(i);
            }
            i = i + 1;
        }
        None
    }

    /// The row at a key hash, if the store holds one.
    pub fn find_by_hash(&self, h: &String) -> (r: Option<&Model>)
        requires
            self.wf(),
        ensures
            match r {
                Some(m) => self@.contains_key(h@) && *m == self@[h@],
                None => !self@.contains_key(h@),
            },
    {
        proof {
            lemma_records_map_domain(self.records@, h@);
        }
        match self.find_index_by_hash(h) {
            Some(i) => {
                proof {
                    lemma_records_map_get(self.records@, i as int);
                }
                Some(&self.records[i])
            },
            None => None,
        }
    }

    /// The first row holding the given literal cache key, if any.
    pub fn find_by_key(&self, key: &String) -> (r: Option<&Model>)
        requires
            self.wf(),
        ensures
            match r {
                Some(m) => {
                    &&& m.query_key@ == key@
                    &&& self@.contains_key(m.query_key_hash@)
                    &&& self@[m.query_key_hash@] == *m
                },
                None => forall|j: int|
                    0 <= j < self.record_seq().len() ==> #[trigger] self.record_seq()[
                        j
                    ].query_key@ != key@,
            },
    {
        let n = self.records.len();
        let mut i: usize = 0;
        while i < n
            invariant
                i <= n,
                n == self.records@.len(),
                self.wf(),
                forall|j: int| 0 <= j < i ==> #[trigger] self.records@[j].query_key@ != key@,
            decreases n - i,
        {
            if self.records[i].query_key == *key {
                proof {
                    lemma_records_map_get(self.records@, i as int);
                }
                return Some(&self.records[i]);
            }
            i = i + 1;
        }
        None
    }

    /// Inserts a fresh row for a record whose hash the store does not yet
    /// hold, assigning it the next row identifier, which is returned.
    pub fn insert(&mut self, m: Model) -> (rid: u64)
        requires
            old(self).wf(),
            !old(self)@.contains_key(m.query_key_hash@),
            old(self).spec_next_rid() < u64::MAX,
        ensures
            final(self).wf(),
            rid == old(self).spec_next_rid(),
            final(self)@ == old(self)@.insert(
                m.query_key_hash@,
                Model { rid: old(self).spec_next_rid(), ..m },
            ),
            final(self).record_seq() == old(self).record_seq().push(
                Model { rid: old(self).spec_next_rid(), ..m },
            ),
            final(self).spec_next_rid() == old(self).spec_next_rid() + 1,
    {
        proof {
            lemma_records_map_domain(self.records@, m.query_key_hash@);
            lemma_records_map_push(self.records@, Model { rid: self.next_rid, ..m });
        }
        let rid = self.next_rid;
        let row = Model { rid, ..m };
        self.records.push(row);
        self.next_rid = self.next_rid + 1;
        proof {
            assert(distinct_rows(final(self).records@));
        }
        rid
    }

    /// Removes and returns the row at a key hash, if one is held.
    pub fn remove_by_hash(&mut self, h: &String) -> (r: Option<Model>)
        requires
            old(self).wf(),
        ensures
            final(self).wf(),
            final(self).spec_next_rid() == old(self).spec_next_rid(),
            match r {
                Some(m) => {
                    &&& old(self)@.contains_key(h@)
                    &&& m == old(self)@[h@]
                    &&& final(self)@ == old(self)@.remove(h@)
                },
                None => {
                    &&& !old(self)@.contains_key(h@)
                    &&& *final(self) == *old(self)
                },
            },
    {
        proof {
            lemma_records_map_domain(self.records@, h@);
        }
        let ghost s0 = self.records@;
        match self.find_index_by_hash(h) {
            Some(i) => {
                proof {
                    lemma_records_map_get(s0, i as int);
                    lemma_records_map_remove(s0, i as int);
                }
                let m = self.records.remove(i);
                proof {
                    assert(forall|a: int|
                        0 <= a < self.records@.len() ==> self.records@[a] == if a < i as int {
                            s0[a]
                        } else {
                            s0[a + 1]
                        });
                    assert(distinct_rows(self.records@));
                }
                Some(m)
            },
            None => None,
        }
    }

    /// Removes the row with the given row identifier, returning it if one
    /// was held.
    pub fn delete_by_rid(&mut self, rid: u64) -> (r: Option<Model>)
        requires
            old(self).wf(),
        ensures
            final(self).wf(),
            final(self).spec_next_rid() == old(self).spec_next_rid(),
            match r {
                Some(m) => {
                    &&& m.rid == rid
                    &&& old(self)@.contains_key(m.query_key_hash@)
                    &&& old(self)@[m.query_key_hash@] == m
                    &&& final(self)@ == old(self)@.remove(m.query_key_hash@)
                },
                None => {
                    &&& *final(self) == *old(self)
                    &&& forall|j: int|
                        0 <= j < old(self).record_seq().len()
                            ==> #[trigger] old(self).record_seq()[j].rid != rid
                },
            },
    {
        let ghost t0 = *self;
        let ghost s0 = self.records@;
        let n = self.records.len();
        let mut i: usize = 0;
        while i < n
            invariant
                i <= n,
                n == self.records@.len(),
                *self == t0,
                t0 == *old(self),
                t0.wf(),
                self.records@ == s0,
                forall|j: int| 0 <= j < i ==> #[trigger] self.records@[j].rid != rid,
            decreases n - i,
        {
            if self.records[i].rid == rid {
                proof {
                    lemma_records_map_get(s0, i as int);
                    lemma_records_map_remove(s0, i as int);
                }
                let m = self.records.remove(i);
                proof {
                    assert(forall|a: int|
                        0 <= a < self.records@.len() ==> self.records@[a] == if a < i as int {
                            s0[a]
                        } else {
                            s0[a + 1]
                        });
                    assert(distinct_rows(self.records@));
                }
                return Some(m);
            }
            i = i + 1;
        }
        None
    }

    /// Empties the table. Row identifiers are not reused.
    pub fn delete_all(&mut self)
        requires
            old(self).wf(),
        ensures
            final(self).wf(),
            final(self)@ == Map::<Seq<char>, Model>::empty(),
            final(self).record_seq() == Seq::<Model>::empty(),
            final(self).spec_next_rid() == old(self).spec_next_rid(),
    {
        self.records.clear();
    }

    /// Rebuilds the table model from rows fetched out of the remote
    /// store. Succeeds exactly when the rows have distinct hashes and
    /// distinct identifiers, none of them the largest representable one;
    /// the next identifier is then above every fetched one.
    pub fn from_rows(rows: Vec<Model>) -> (r: Option<StoreTable>)
        ensures
            match r {
                Some(t) => {
                    &&& t.wf()
                    &&& t.record_seq() == rows@
                },
                None => !distinct_rows(rows@) || exists|i: int|
                    0 <= i < rows@.len() && #[trigger] rows@[i].rid == u64::MAX,
            },
            (distinct_rows(rows@) && (forall|i: int|
                0 <= i < rows@.len() ==> #[trigger] rows@[i].rid != u64::MAX)) ==> r is Some,
    {
        let n = rows.len();
        let mut next: u64 = 1;
        let mut i: usize = 0;
        while i < n
            invariant
                i <= n,
                n == rows@.len(),
                1 <= next,
                forall|j: int| 0 <= j < i ==> #[trigger] rows@[j].rid < next,
                forall|a: int, b: int|
                    0 <= a < b < i ==> rows@[a].query_key_hash@ != rows@[b].query_key_hash@,
                forall|a: int, b: int| 0 <= a < b < i ==> rows@[a].rid != rows@[b].rid,
            decreases n - i,
        {
            if rows[i].rid == u64::MAX {
                return None;
            }
            if rows[i].rid >= next {
                next = rows[i].rid + 1;
            }
            let mut j: usize = 0;
            while j < i
                invariant
                    j <= i < n,
                    n == rows@.len(),
                    forall|b: int|
                        0 <= b < j ==> rows@[b].query_key_hash@ != rows@[i as int].query_key_hash@,
                    forall|b: int| 0 <= b < j ==> rows@[b].rid != rows@[i as int].rid,
                decreases i - j,
            {
                if rows[j].query_key_hash == rows[i].query_key_hash || rows[j].rid == rows[i].rid {
                    return None;
                }
                j = j + 1;
            }
            i = i + 1;
        }
        Some(StoreTable { records: rows, next_rid: next })
    }

    /// A copy of every row, in storage order.
    pub fn all_records(&self) -> (v: Vec<Model>)
        ensures
            v@ == self.record_seq(),
    {
        let n = self.records.len();
        let mut v: Vec<Model> = Vec::new();
        let mut i: usize = 0;
        while i < n
            invariant
                i <= n,
                n == self.records@.len(),
                v@ == self.records@.take(i as int),
            decreases n - i,
        {
            v.push(self.records[i].clone());
            i = i + 1;
            proof {
                assert(v@ =~= self.records@.take(i as int));
            }
        }
        proof {
            assert(self.records@.take(n as int) =~= self.records@);
        }
        v
    }
}

} // verus!
