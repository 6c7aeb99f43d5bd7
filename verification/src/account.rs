//! The account: the façade that owns the cache, the bill and the
//! graveyard, and drives them for each logical request.
//!
//! The account itself never performs I/O. A lookup that hits is answered
//! and billed here; on a miss the embedding application carries the
//! prepared payload to the upstream service and hands the response back to
//! [`OpenAIAccount::record_completion`], which caches it and bills it. The
//! snapshot files and the remote store are mirrored by the application
//! from the contracts on these methods.

use vstd::prelude::*;
use crate::bill::Bill;
use crate::bill::spec_record_hit;
use crate::bill::spec_record_miss;
use crate::bill::spec_reset;
use crate::bill::spec_zero_bill;
use crate::cache::QueryCache;
use crate::graveyard::GraveyardEntry;
use crate::models::GptModel;
use crate::models::Query;
use crate::models::QueryType;
use crate::models::Usage;
use crate::normalize::normalize;
use crate::normalize::spec_cache_key;
use crate::text::dec_digits;
use crate::text::u64_to_string;
use crate::hash::spec_hash_string;
use crate::models::is_model_string;
use crate::store::Model;
use crate::store::StoreTable;
use crate::store::record_for_entry;
use crate::store::record_matches;
use crate::store::spec_to_query;

verus! {

/// The orchestrator's state: model and temperature defaults, the running
/// bill, the in-memory cache, and the in-memory image of the graveyard
/// trail appended this session.
pub struct OpenAIAccount {
    /// Default model for requests that do not name one.
    pub model: GptModel,
    /// Default sampling temperature in hundredths.
    pub temperature: u32,
    /// Running totals of usage and spend.
    pub bill: Bill,
    /// The mapping from cache key to cached result.
    pub cache: QueryCache,
    /// Displaced values appended this session, oldest first.
    pub graveyard: Vec<GraveyardEntry>,
}

/// The cache and graveyard after one write of a query under a raw key:
/// the key is derived per the query's category, the mapping gains the
/// query, and a displaced previous value is appended to the graveyard
/// before anything else happens.
pub open spec fn spec_cache_write(
    cache: Map<Seq<char>, Query>,
    grave: Seq<GraveyardEntry>,
    raw_key: Seq<char>,
    q: Query,
) -> (Map<Seq<char>, Query>, Seq<GraveyardEntry>) {
    let k = spec_cache_key(q.query_type, raw_key);
    if cache.contains_key(k) {
        (cache.insert(k, q), grave.push(GraveyardEntry::Query(cache[k])))
    } else {
        (cache.insert(k, q), grave)
    }
}

impl OpenAIAccount {
    /// Well-formed: the cache keeps one entry per key.
    pub open spec fn wf(&self) -> bool {
        self.cache.wf()
    }

    /// A fresh account over an already-loaded bill and cache. The
    /// in-memory graveyard trail starts empty; it holds only what this
    /// session displaces, and the application appends each entry to the
    /// backup file, which keeps earlier sessions' entries.
    pub fn new(model: GptModel, temperature: u32, bill: Bill, cache: QueryCache) -> (a:
        OpenAIAccount)
        requires
            cache.wf(),
        ensures
            a.wf(),
            a.model == model,
            a.temperature == temperature,
            a.bill == bill,
            a.cache == cache,
            a.graveyard@ == Seq::<GraveyardEntry>::empty(),
    {
        OpenAIAccount { model, temperature, bill, cache, graveyard: Vec::new() }
    }

    /// Looks up the cached result for raw input under a category, deriving
    /// the cache key first. Pure: nothing is mutated.
    pub fn check_cache(&self, cache_key: &String, query_type: QueryType) -> (r: Option<&Query>)
        requires
            self.wf(),
        ensures
            match r {
                Some(q) => {
                    &&& self.cache@.contains_key(spec_cache_key(query_type, cache_key@))
                    &&& *q == self.cache@[spec_cache_key(query_type, cache_key@)]
                },
                None => !self.cache@.contains_key(spec_cache_key(query_type, cache_key@)),
            },
    {
        let key = normalize(query_type, cache_key);
        self.cache.get(&key)
    }

    /// Writes a query into the cache under the key derived from the raw
    /// key and the query's own category. A displaced previous entry is
    /// appended to the graveyard before the write completes.
    pub fn cache_query(&mut self, cache_key: &String, query: &Query)
        requires
            old(self).wf(),
        ensures
            final(self).wf(),
            (final(self).cache@, final(self).graveyard@) == spec_cache_write(
                old(self).cache@,
                old(self).graveyard@,
                cache_key@,
                *query,
            ),
            final(self).bill == old(self).bill,
            final(self).model == old(self).model,
            final(self).temperature == old(self).temperature,
    {
        let key = normalize(query.query_type, cache_key);
        match self.cache.put(key, query.clone()) {
            Some(displaced) => {
                self.graveyard.push(GraveyardEntry::Query(displaced));
            },
            None => {},
        }
    }

    /// Empties the in-memory cache; the application then truncates the
    /// snapshot file to match.
    pub fn clear_cache(&mut self)
        ensures
            final(self).wf(),
            final(self).cache@ == Map::<Seq<char>, Query>::empty(),
            final(self).bill == old(self).bill,
            final(self).graveyard@ == old(self).graveyard@,
            final(self).model == old(self).model,
            final(self).temperature == old(self).temperature,
    {
        self.cache.clear();
    }

    /// Removes the entry at a literal key (no derivation), returning the
    /// key and value held there.
    pub fn remove_from_cache(&mut self, cache_key: String) -> (r: Option<(String, Query)>)
        requires
            old(self).wf(),
        ensures
            final(self).wf(),
            final(self).bill == old(self).bill,
            final(self).graveyard@ == old(self).graveyard@,
            final(self).model == old(self).model,
            final(self).temperature == old(self).temperature,
            match r {
                Some(pair) => {
                    &&& old(self).cache@.contains_key(cache_key@)
                    &&& pair.0@ == cache_key@
                    &&& pair.1 == old(self).cache@[cache_key@]
                    &&& final(self).cache@ == old(self).cache@.remove(cache_key@)
                },
                None => {
                    &&& !old(self).cache@.contains_key(cache_key@)
                    &&& final(self).cache@ == old(self).cache@
                },
            },
    {
        self.cache.remove(&cache_key)
    }

    /// A read-only copy of the bill.
    pub fn get_bill(&self) -> (b: Bill)
        ensures
            b == self.bill,
    {
        self.bill
    }

    /// Adds a paid exchange's usage and cost to the bill, or touches
    /// nothing when no query is passed (the application still rewrites the
    /// bill file either way, as every mutation flushes it).
    pub fn update_bill(&mut self, query: Option<&Query>)
        requires
            match query {
                Some(q) => old(self).bill.can_absorb(q.usage, q.cost),
                None => true,
            },
        ensures
            final(self).bill == match query {
                Some(q) => spec_record_miss(old(self).bill, q.usage, q.cost),
                None => old(self).bill,
            },
            final(self).cache == old(self).cache,
            final(self).graveyard@ == old(self).graveyard@,
            final(self).model == old(self).model,
            final(self).temperature == old(self).temperature,
    {
        match query {
            Some(q) => self.bill.record_miss(q.usage, q.cost),
            None => {},
        }
    }

    /// Zeroes the bill's usage, cost and query count; the cache-retrieval
    /// count stays.
    pub fn reset_bill(&mut self)
        ensures
            final(self).bill == spec_reset(old(self).bill),
            final(self).cache == old(self).cache,
            final(self).graveyard@ == old(self).graveyard@,
            final(self).model == old(self).model,
            final(self).temperature == old(self).temperature,
    {
        self.bill.reset();
    }

    /// Sets the default sampling temperature, in hundredths.
    pub fn set_temperature(&mut self, temperature: u32)
        ensures
            final(self).temperature == temperature,
            final(self).cache == old(self).cache,
            final(self).bill == old(self).bill,
            final(self).graveyard@ == old(self).graveyard@,
            final(self).model == old(self).model,
    {
        self.temperature = temperature;
    }

    /// Serves a request from the cache if it is there: the stored result
    /// comes back marked as cache-derived and one cache retrieval is
    /// billed. On a miss nothing changes and the caller goes upstream.
    pub fn take_cached(&mut self, cache_key: &String, query_type: QueryType) -> (r: Option<Query>)
        requires
            old(self).wf(),
            old(self).bill.cache_retrievals < u64::MAX,
        ensures
            final(self).wf(),
            final(self).cache == old(self).cache,
            final(self).graveyard@ == old(self).graveyard@,
            final(self).model == old(self).model,
            final(self).temperature == old(self).temperature,
            match r {
                Some(q) => {
                    &&& old(self).cache@.contains_key(spec_cache_key(query_type, cache_key@))
                    &&& q == Query {
                        from_cache: true,
                        ..old(self).cache@[spec_cache_key(query_type, cache_key@)]
                    }
                    &&& final(self).bill == spec_record_hit(old(self).bill)
                },
                None => {
                    &&& !old(self).cache@.contains_key(spec_cache_key(query_type, cache_key@))
                    &&& final(self).bill == old(self).bill
                },
            },
    {
        let key = normalize(query_type, cache_key);
        let found = match self.cache.get(&key) {
            Some(q) => Some(q.clone()),
            None => None,
        };
        match found {
            Some(q) => {
                let mut q = q;
                q.from_cache = true;
                self.bill.record_hit();
                Some(q)
            },
            None => None,
        }
    }

    /// Records a fresh upstream exchange: builds the result record, writes
    /// it into the cache (displacing to the graveyard if the key was
    /// taken) and bills the miss. Returns the record handed to the caller.
    pub fn record_completion(
        &mut self,
        cache_key: &String,
        prompt: String,
        query_type: QueryType,
        response: String,
        usage: Usage,
        cost: u64,
        process_time: u64,
        model: GptModel,
    ) -> (q: Query)
        requires
            old(self).wf(),
            old(self).bill.can_absorb(usage, cost),
        ensures
            final(self).wf(),
            q == (Query {
                prompt: prompt,
                cost: cost,
                response: response,
                usage: usage,
                process_time: process_time,
                model: model,
                query_type: query_type,
                temperature: old(self).temperature,
                from_cache: false,
            }),
            (final(self).cache@, final(self).graveyard@) == spec_cache_write(
                old(self).cache@,
                old(self).graveyard@,
                cache_key@,
                q,
            ),
            final(self).bill == spec_record_miss(old(self).bill, usage, cost),
            final(self).model == old(self).model,
            final(self).temperature == old(self).temperature,
    {
        let query = Query {
            prompt,
            cost,
            response,
            usage,
            process_time,
            model,
            query_type,
            temperature: self.temperature,
            from_cache: false,
        };
        self.cache_query(cache_key, &query);
        self.update_bill(Some(&query));
        query
    }
}

/// The aggregation payload built from an entry list: the response bodies
/// of the document completions, in entry order, each preceded by a blank
/// line and its one-based position in that enumeration. Entries of other
/// categories contribute nothing.
pub open spec fn spec_meta_input(s: Seq<(String, Query)>, count: nat) -> Seq<char>
    decreases s.len(),
{
    if s.len() == 0 {
        Seq::empty()
    } else if s[0].1.query_type is DocumentCompletion {
        "\n\n"@ + dec_digits(count + 1) + ")\n"@ + s[0].1.response@ + spec_meta_input(
            s.drop_first(),
            count + 1,
        )
    } else {
        spec_meta_input(s.drop_first(), count)
    }
}

impl OpenAIAccount {
    /// Builds the aggregation payload by scanning the cache in entry
    /// order and concatenating the document-completion response bodies,
    /// each under its enumeration number.
    pub fn build_meta_input(&self) -> (input: String)
        requires
            self.wf(),
        ensures
            input@ == spec_meta_input(self.cache.entry_seq(), 0),
    {
        let n = self.cache.len();
        let mut acc = String::new();
        let mut count: u64 = 0;
        let mut i: usize = 0;
        proof {
            assert(self.cache.entry_seq().skip(0) =~= self.cache.entry_seq());
            assert(acc@ + spec_meta_input(self.cache.entry_seq(), 0) =~= spec_meta_input(
                self.cache.entry_seq(),
                0,
            ));
        }
        while i < n
            invariant
                i <= n,
                n == self.cache.entry_seq().len(),
                self.wf(),
                count <= i,
                acc@ + spec_meta_input(self.cache.entry_seq().skip(i as int), count as nat)
                    == spec_meta_input(self.cache.entry_seq(), 0),
            decreases n - i,
        {
            let ghost s = self.cache.entry_seq();
            proof {
                assert(s.skip(i as int).drop_first() =~= s.skip(i + 1));
                assert(s.skip(i as int)[0] == s[i as int]);
            }
            let pair = self.cache.entry_at(i);
            match pair.1.query_type {
                QueryType::DocumentCompletion => {
                    count = count + 1;
                    let ghost acc0 = acc@;
                    acc.append("\n\n");
                    let num = u64_to_string(count);
                    acc.append(num.as_str());
                    acc.append(")\n");
                    acc.append(pair.1.response.as_str());
                    proof {
                        assert(acc@ + spec_meta_input(s.skip(i + 1), count as nat) =~= acc0
                            + spec_meta_input(s.skip(i as int), (count - 1) as nat));
                    }
                },
                QueryType::PromptCompletion => {},
                QueryType::AggregationCompletion => {},
            }
            i = i + 1;
        }
        proof {
            let s = self.cache.entry_seq();
            assert(s.skip(n as int) =~= Seq::<(String, Query)>::empty());
            assert(acc@ + spec_meta_input(s.skip(n as int), count as nat) =~= acc@);
        }
        acc
    }
}

impl Default for OpenAIAccount {
    /// A blank account: default model, temperature zero, zeroed bill,
    /// empty cache and empty graveyard trail.
    fn default() -> (a: OpenAIAccount)
        ensures
            a.wf(),
            a.model == GptModel::Gpt35Turbo16k,
            a.temperature == 0,
            a.bill == spec_zero_bill(),
            a.cache@ == Map::<Seq<char>, Query>::empty(),
            a.graveyard@ == Seq::<GraveyardEntry>::empty(),
    {
        OpenAIAccount {
            model: GptModel::Gpt35Turbo16k,
            temperature: 0,
            bill: Bill::new(),
            cache: QueryCache::new(),
            graveyard: Vec::new(),
        }
    }
}

/// The hash string under which a cache entry is kept in the remote store.
pub open spec fn entry_hash(e: (String, Query)) -> Seq<char> {
    spec_hash_string(e.0@)
}

/// True when no later entry carries the same hash: that entry's row is
/// the one left standing after a full push.
pub open spec fn last_with_hash(s: Seq<(String, Query)>, j: int) -> bool {
    forall|j2: int| j < j2 < s.len() ==> entry_hash(#[trigger] s[j2]) != entry_hash(s[j])
}

/// A pushed element leaves everything already in a sequence reachable.
proof fn lemma_push_preserves_contains<T>(s: Seq<T>, x: T, y: T)
    requires
        s.contains(y),
    ensures
        s.push(x).contains(y),
{
    let i = choose|i: int| 0 <= i < s.len() && s[i] == y;
    assert(s.push(x)[i] == y);
}

/// The cache and graveyard after pulling a row list from the remote
/// store: rows are folded in order; a row whose derived key the cache
/// already holds is skipped unless `overwrite` is set, and an overwrite
/// routes the displaced value to the graveyard like any other write.
pub open spec fn spec_pull(
    cache0: Map<Seq<char>, Query>,
    grave0: Seq<GraveyardEntry>,
    models: Seq<Model>,
    overwrite: bool,
) -> (Map<Seq<char>, Query>, Seq<GraveyardEntry>)
    decreases models.len(),
{
    if models.len() == 0 {
        (cache0, grave0)
    } else {
        let prev = spec_pull(cache0, grave0, models.drop_last(), overwrite);
        let m = models.last();
        let q = spec_to_query(m);
        let k = spec_cache_key(q.query_type, m.query_key@);
        if !overwrite && prev.0.contains_key(k) {
            prev
        } else {
            spec_cache_write(prev.0, prev.1, m.query_key@, q)
        }
    }
}

/// The mapping a full store read denotes, keyed by the literal stored
/// key: later rows win over earlier ones.
pub open spec fn spec_read_all(models: Seq<Model>) -> Map<Seq<char>, Query>
    decreases models.len(),
{
    if models.len() == 0 {
        Map::empty()
    } else {
        spec_read_all(models.drop_last()).insert(
            models.last().query_key@,
            spec_to_query(models.last()),
        )
    }
}

/// Pushes one cache entry into the store model: a row already holding the
/// entry's key hash is deleted, with the displaced row appended to the
/// graveyard first, and a fresh row built from the entry is inserted.
fn push_entry(
    store: &mut StoreTable,
    graveyard: &mut Vec<GraveyardEntry>,
    key: &String,
    q: &Query,
    timestamp: &String,
)
    requires
        old(store).wf(),
        old(store).spec_next_rid() < u64::MAX,
    ensures
        final(store).wf(),
        final(store).spec_next_rid() <= old(store).spec_next_rid() + 1,
        final(store)@.contains_key(spec_hash_string(key@)),
        record_matches(
            final(store)@[spec_hash_string(key@)],
            key@,
            *q,
            timestamp@,
        ),
        forall|h: Seq<char>|
            h != spec_hash_string(key@) ==> (#[trigger] final(store)@.contains_key(h)
                <==> old(store)@.contains_key(h)),
        forall|h: Seq<char>|
            h != spec_hash_string(key@) && old(store)@.contains_key(h)
                ==> #[trigger] final(store)@[h] == old(store)@[h],
        final(graveyard)@ == if old(store)@.contains_key(spec_hash_string(key@)) {
            old(graveyard)@.push(
                GraveyardEntry::Record(old(store)@[spec_hash_string(key@)]),
            )
        } else {
            old(graveyard)@
        },
{
    let h = crate::hash::hash_string(key);
    let m = record_for_entry(key, q, timestamp);
    match store.remove_by_hash(&h) {
        Some(oldrow) => {
            graveyard.push(GraveyardEntry::Record(oldrow));
        },
        None => {},
    }
    store.insert(m);
}

impl OpenAIAccount {
    /// Pushes the whole cache into the store model: for every entry, a
    /// row whose hash the store already holds is deleted — after the
    /// displaced row is appended to the graveyard — and a fresh row built
    /// from the current entry is inserted. A full replace, not a diff.
    /// The embedding application mirrors each delete and insert onto the
    /// database.
    #[verifier::rlimit(100)]
    pub fn db_insert_cache(&mut self, store: &mut StoreTable, timestamp: &String)
        requires
            old(self).wf(),
            old(store).wf(),
            old(store).spec_next_rid() + old(self).cache.entry_seq().len() < u64::MAX,
        ensures
            final(self).wf(),
            final(store).wf(),
            final(self).cache == old(self).cache,
            final(self).bill == old(self).bill,
            final(self).model == old(self).model,
            final(self).temperature == old(self).temperature,
            // every entry's hash now has a row
            forall|j: int|
                0 <= j < old(self).cache.entry_seq().len() ==> final(store)@.contains_key(
                    entry_hash(#[trigger] old(self).cache.entry_seq()[j]),
                ),
            // the last entry carrying a hash decides the row stored there
            forall|j: int|
                0 <= j < old(self).cache.entry_seq().len() && last_with_hash(
                    old(self).cache.entry_seq(),
                    j,
                ) ==> record_matches(
                    final(store)@[entry_hash(#[trigger] old(self).cache.entry_seq()[j])],
                    old(self).cache.entry_seq()[j].0@,
                    old(self).cache.entry_seq()[j].1,
                    timestamp@,
                ),
            // rows whose hash no entry carries stay exactly as they were
            forall|h: Seq<char>|
                old(store)@.contains_key(h) && (forall|j: int|
                    0 <= j < old(self).cache.entry_seq().len() ==> entry_hash(
                        #[trigger] old(self).cache.entry_seq()[j],
                    ) != h) ==> #[trigger] final(store)@.contains_key(h) && final(store)@[h]
                    == old(store)@[h],
            // no rows appear beyond old rows and pushed entries
            forall|h: Seq<char>|
                #[trigger] final(store)@.contains_key(h) ==> old(store)@.contains_key(h) || exists|
                    j: int,
                |
                    0 <= j < old(self).cache.entry_seq().len() && entry_hash(
                        #[trigger] old(self).cache.entry_seq()[j],
                    ) == h,
            // the graveyard only grows, by displaced rows
            final(self).graveyard@.len() >= old(self).graveyard@.len(),
            final(self).graveyard@.take(old(self).graveyard@.len() as int) == old(
                self,
            ).graveyard@,
            forall|idx: int|
                old(self).graveyard@.len() <= idx < final(self).graveyard@.len()
                    ==> #[trigger] final(self).graveyard@[idx] is Record,
            // a displaced old row is always recoverable from the graveyard
            forall|j: int|
                0 <= j < old(self).cache.entry_seq().len() && old(store)@.contains_key(
                    entry_hash(#[trigger] old(self).cache.entry_seq()[j]),
                ) ==> final(self).graveyard@.contains(
                    GraveyardEntry::Record(
                        old(store)@[entry_hash(old(self).cache.entry_seq()[j])],
                    ),
                ),
    {
        let ghost s = self.cache.entry_seq();
        let ghost g0 = self.graveyard@;
        let ghost store0 = *store;
        let n = self.cache.len();
        let mut i: usize = 0;
        while i < n
            invariant
                i <= n,
                n == s.len(),
                s == old(self).cache.entry_seq(),
                g0 == old(self).graveyard@,
                store0 == *old(store),
                self.cache == old(self).cache,
                self.bill == old(self).bill,
                self.model == old(self).model,
                self.temperature == old(self).temperature,
                self.wf(),
                store.wf(),
                store0.wf(),
                store0.spec_next_rid() + s.len() < u64::MAX,
                store.spec_next_rid() <= store0.spec_next_rid() + i,
                forall|j: int|
                    0 <= j < i ==> store@.contains_key(entry_hash(#[trigger] s[j])),
                forall|j: int|
                    0 <= j < i && last_with_hash(s.take(i as int), j) ==> record_matches(
                        store@[entry_hash(#[trigger] s[j])],
                        s[j].0@,
                        s[j].1,
                        timestamp@,
                    ),
                forall|h: Seq<char>|
                    store0@.contains_key(h) && (forall|j: int|
                        0 <= j < i ==> entry_hash(#[trigger] s[j]) != h)
                        ==> #[trigger] store@.contains_key(h) && store@[h] == store0@[h],
                forall|h: Seq<char>|
                    #[trigger] store@.contains_key(h) ==> store0@.contains_key(h) || exists|
                        j: int,
                    | 0 <= j < i && entry_hash(#[trigger] s[j]) == h,
                self.graveyard@.len() >= g0.len(),
                self.graveyard@.take(g0.len() as int) == g0,
                forall|idx: int|
                    g0.len() <= idx < self.graveyard@.len()
                        ==> #[trigger] self.graveyard@[idx] is Record,
                forall|j: int|
                    0 <= j < i && store0@.contains_key(entry_hash(#[trigger] s[j]))
                        ==> self.graveyard@.contains(
                        GraveyardEntry::Record(store0@[entry_hash(s[j])]),
                    ),
            decreases n - i,
        {
            let (key, q) = {
                let pair = self.cache.entry_at(i);
                (pair.0.clone(), pair.1.clone())
            };
            let ghost g_before = self.graveyard@;
            let ghost store_before = store@;
            push_entry(store, &mut self.graveyard, &key, &q, timestamp);
            proof {
                let h = spec_hash_string(key@);
                if store_before.contains_key(h) {
                    assert(self.graveyard@.take(g0.len() as int) =~= g0);
                    assert forall|e: GraveyardEntry| g_before.contains(e) implies self
                        .graveyard@.contains(e) by {
                        lemma_push_preserves_contains(g_before, self.graveyard@.last(), e);
                    }
                    if forall|j: int| 0 <= j < i ==> entry_hash(#[trigger] s[j]) != h {
                        assert(store0@.contains_key(h) && store_before[h] == store0@[h]);
                    }
                }
            }
            i = i + 1;
            proof {
                let h = spec_hash_string(key@);
                assert(s.take(i as int)[i - 1] == s[i - 1]);
                assert(entry_hash(s[i - 1]) == h);
                assert(record_matches(
                    store@[entry_hash(s[i - 1])],
                    s[i - 1].0@,
                    s[i - 1].1,
                    timestamp@,
                ));
                assert(forall|j: int|
                    0 <= j < i - 1 ==> s.take(i as int)[j] == #[trigger] s.take(i - 1)[j]);
                assert forall|j: int|
                    0 <= j < i && last_with_hash(s.take(i as int), j) implies record_matches(
                    store@[entry_hash(#[trigger] s[j])],
                    s[j].0@,
                    s[j].1,
                    timestamp@,
                ) by {
                    if j < i - 1 {
                        assert(entry_hash(s[j]) != entry_hash(s[i - 1]));
                        assert(last_with_hash(s.take(i - 1), j));
                    }
                }
                assert forall|j: int|
                    0 <= j < i && store0@.contains_key(entry_hash(#[trigger] s[j])) implies self
                    .graveyard@.contains(GraveyardEntry::Record(store0@[entry_hash(s[j])])) by {
                    if j == i - 1 {
                        if exists|j0: int| 0 <= j0 < i - 1 && entry_hash(#[trigger] s[j0])
                            == entry_hash(s[j]) {
                            let j0 = choose|j0: int|
                                0 <= j0 < i - 1 && entry_hash(#[trigger] s[j0]) == entry_hash(
                                    s[j],
                                );
                            assert(self.graveyard@.contains(
                                GraveyardEntry::Record(store0@[entry_hash(s[j0])]),
                            ));
                        }
                    }
                }
            }
        }
        proof {
            assert(s.take(n as int) =~= s);
            assert(forall|j: int| 0 <= j < n ==> s.take(n as int)[j] == #[trigger] s[j]);
            assert forall|j: int|
                0 <= j < s.len() && last_with_hash(s, j) implies last_with_hash(
                s.take(n as int),
                j,
            ) by {}
        }
    }

    /// Inserts the cached result at one literal key into the store model,
    /// returning the assigned row identifier, or nothing when the key has
    /// no cached value. The store must not already hold the key's hash;
    /// callers test with `StoreTable::find_by_hash` first.
    pub fn db_insert_query(&self, store: &mut StoreTable, cache_key: String, timestamp: &String)
        -> (r: Option<u64>)
        requires
            self.wf(),
            old(store).wf(),
            old(store).spec_next_rid() < u64::MAX,
            self.cache@.contains_key(cache_key@) ==> !old(store)@.contains_key(
                spec_hash_string(cache_key@),
            ),
        ensures
            final(store).wf(),
            match r {
                Some(rid) => {
                    &&& self.cache@.contains_key(cache_key@)
                    &&& rid == old(store).spec_next_rid()
                    &&& final(store)@.contains_key(spec_hash_string(cache_key@))
                    &&& record_matches(
                        final(store)@[spec_hash_string(cache_key@)],
                        cache_key@,
                        self.cache@[cache_key@],
                        timestamp@,
                    )
                    &&& final(store)@[spec_hash_string(cache_key@)].rid == rid
                    &&& final(store)@.remove(spec_hash_string(cache_key@)) == old(store)@
                },
                None => {
                    &&& !self.cache@.contains_key(cache_key@)
                    &&& *final(store) == *old(store)
                },
            },
    {
        match self.cache.get(&cache_key) {
            Some(q) => {
                let m = record_for_entry(&cache_key, q, timestamp);
                let rid = store.insert(m);
                proof {
                    assert(final(store)@.remove(spec_hash_string(cache_key@)) =~= old(store)@);
                }
                Some(rid)
            },
            None => None,
        }
    }

    /// Merges a full store read into the cache: each row is rebuilt into a
    /// cached result and written under its derived key; keys the cache
    /// already holds are left untouched unless `overwrite` is set, in
    /// which case the remote value wins and the displaced one goes to the
    /// graveyard. Returns the pre-merge cache for caller-side diffing.
    pub fn db_read_to_cache(&mut self, models: &Vec<Model>, overwrite: bool) -> (previous:
        QueryCache)
        requires
            old(self).wf(),
            forall|j: int|
                0 <= j < models@.len() ==> is_model_string(#[trigger] models@[j].model@),
        ensures
            final(self).wf(),
            previous.wf(),
            previous@ == old(self).cache@,
            previous.entry_seq() == old(self).cache.entry_seq(),
            (final(self).cache@, final(self).graveyard@) == spec_pull(
                old(self).cache@,
                old(self).graveyard@,
                models@,
                overwrite,
            ),
            final(self).bill == old(self).bill,
            final(self).model == old(self).model,
            final(self).temperature == old(self).temperature,
    {
        let previous = self.cache.clone_cache();
        let n = models.len();
        let mut i: usize = 0;
        while i < n
            invariant
                i <= n,
                n == models@.len(),
                forall|j: int|
                    0 <= j < models@.len() ==> is_model_string(#[trigger] models@[j].model@),
                self.wf(),
                self.bill == old(self).bill,
                self.model == old(self).model,
                self.temperature == old(self).temperature,
                (self.cache@, self.graveyard@) == spec_pull(
                    old(self).cache@,
                    old(self).graveyard@,
                    models@.take(i as int),
                    overwrite,
                ),
            decreases n - i,
        {
            proof {
                assert(models@.take(i + 1).drop_last() =~= models@.take(i as int));
                assert(models@.take(i + 1).last() == models@[i as int]);
            }
            let m = &models[i];
            let q = m.to_query();
            let key = normalize(q.query_type, &m.query_key);
            let mut skip = false;
            if !overwrite {
                if self.cache.get(&key).is_some() {
                    skip = true;
                }
            }
            if !skip {
                self.cache_query(&m.query_key, &q);
            }
            i = i + 1;
        }
        proof {
            assert(models@.take(n as int) =~= models@);
        }
        previous
    }

    /// Rebuilds the mapping a full store read denotes, keyed by the
    /// literal stored key. The cache itself is not touched.
    pub fn db_read_all(&self, models: &Vec<Model>) -> (c: QueryCache)
        requires
            forall|j: int|
                0 <= j < models@.len() ==> is_model_string(#[trigger] models@[j].model@),
        ensures
            c.wf(),
            c@ == spec_read_all(models@),
    {
        let n = models.len();
        let mut c = QueryCache::new();
        let mut i: usize = 0;
        while i < n
            invariant
                i <= n,
                n == models@.len(),
                forall|j: int|
                    0 <= j < models@.len() ==> is_model_string(#[trigger] models@[j].model@),
                c.wf(),
                c@ == spec_read_all(models@.take(i as int)),
            decreases n - i,
        {
            proof {
                assert(models@.take(i + 1).drop_last() =~= models@.take(i as int));
                assert(models@.take(i + 1).last() == models@[i as int]);
            }
            let m = &models[i];
            let q = m.to_query();
            let _displaced = c.put(m.query_key.clone(), q);
            i = i + 1;
        }
        proof {
            assert(models@.take(n as int) =~= models@);
        }
        c
    }
}

/// Writing `v1` and then `v2` under one raw key leaves `v2` in the cache
/// and routes `v1` to the graveyard: the second write appends exactly the
/// displaced `v1`, whatever the two values hold.
pub proof fn law_overwrite_to_graveyard(
    cache: Map<Seq<char>, Query>,
    grave: Seq<GraveyardEntry>,
    raw_key: Seq<char>,
    v1: Query,
    v2: Query,
)
    requires
        v1.query_type == v2.query_type,
    ensures
        ({
            let first = spec_cache_write(cache, grave, raw_key, v1);
            let second = spec_cache_write(first.0, first.1, raw_key, v2);
            let k = spec_cache_key(v2.query_type, raw_key);
            &&& second.0.contains_key(k)
            &&& second.0[k] == v2
            &&& second.1 == first.1.push(GraveyardEntry::Query(v1))
            &&& second.1.contains(GraveyardEntry::Query(v1))
        }),
{
    let first = spec_cache_write(cache, grave, raw_key, v1);
    let second = spec_cache_write(first.0, first.1, raw_key, v2);
    let k = spec_cache_key(v2.query_type, raw_key);
    assert(first.0.contains_key(k));
    assert(first.0[k] == v1);
    assert(second.1.last() == GraveyardEntry::Query(v1));
}

} // verus!
