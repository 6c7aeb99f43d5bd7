//! The running bill: totals of token usage, spend, query counts and
//! cache-hit counts, fully reloadable from a snapshot.
//!
//! Token and cost fields accumulate only on cache misses; the
//! cache-retrieval count increments only on hits. Resetting zeroes the
//! usage, cost and query-count fields but deliberately leaves the
//! cache-retrieval count alone: hit history is kept apart from spend
//! history.

use vstd::prelude::*;
use crate::models::Usage;

verus! {

/// Running totals of usage and spend. Cost is in milli-cents.
#[derive(Clone, Copy, Debug, PartialEq, Eq, Structural)]
pub struct Bill {
    pub completion_tokens: u64,
    pub prompt_tokens: u64,
    pub total_tokens: u64,
    /// Number of cache misses recorded (each one paid upstream).
    pub query_count: u64,
    /// Cumulative cost in milli-cents.
    pub cost: u64,
    /// Number of lookups served from the cache.
    pub cache_retrievals: u64,
}

/// The bill with every counter at zero.
pub open spec fn spec_zero_bill() -> Bill {
    Bill {
        completion_tokens: 0,
        prompt_tokens: 0,
        total_tokens: 0,
        query_count: 0,
        cost: 0,
        cache_retrievals: 0,
    }
}

/// The bill after a miss with the given usage and cost is recorded.
pub open spec fn spec_record_miss(b: Bill, usage: Usage, cost: u64) -> Bill {
    Bill {
        completion_tokens: (b.completion_tokens + usage.completion_tokens) as u64,
        prompt_tokens: (b.prompt_tokens + usage.prompt_tokens) as u64,
        total_tokens: (b.total_tokens + usage.total_tokens) as u64,
        query_count: (b.query_count + 1) as u64,
        cost: (b.cost + cost) as u64,
        cache_retrievals: b.cache_retrievals,
    }
}

/// The bill after a cache hit is recorded.
pub open spec fn spec_record_hit(b: Bill) -> Bill {
    Bill { cache_retrievals: (b.cache_retrievals + 1) as u64, ..b }
}

/// The bill after a reset: usage, cost and query count zeroed, the
/// cache-retrieval count untouched.
pub open spec fn spec_reset(b: Bill) -> Bill {
    Bill { cache_retrievals: b.cache_retrievals, ..spec_zero_bill() }
}

impl Bill {
    /// True when recording a miss with this usage and cost stays within the
    /// counters' machine range.
    pub open spec fn can_absorb(self, usage: Usage, cost: u64) -> bool {
        &&& self.completion_tokens + usage.completion_tokens <= u64::MAX
        &&& self.prompt_tokens + usage.prompt_tokens <= u64::MAX
        &&& self.total_tokens + usage.total_tokens <= u64::MAX
        &&& self.query_count + 1 <= u64::MAX
        &&& self.cost + cost <= u64::MAX
    }

    /// A fresh bill with every counter at zero.
    pub fn new() -> (b: Bill)
        ensures
            b == spec_zero_bill(),
    {
        Bill {
            completion_tokens: 0,
            prompt_tokens: 0,
            total_tokens: 0,
            query_count: 0,
            cost: 0,
            cache_retrievals: 0,
        }
    }

    /// Whether recording this miss stays within the counters' range, for
    /// callers that must test before they record.
    pub fn can_record(&self, usage: Usage, cost: u64) -> (b: bool)
        ensures
            b == self.can_absorb(usage, cost),
    {
        self.completion_tokens <= u64::MAX - usage.completion_tokens && self.prompt_tokens
            <= u64::MAX - usage.prompt_tokens && self.total_tokens <= u64::MAX
            - usage.total_tokens && self.query_count < u64::MAX && self.cost <= u64::MAX - cost
    }

    /// Adds one paid exchange to the running totals and counts the query.
    pub fn record_miss(&mut self, usage: Usage, cost: u64)
        requires
            old(self).can_absorb(usage, cost),
        ensures
            *final(self) == spec_record_miss(*old(self), usage, cost),
    {
        self.completion_tokens = self.completion_tokens + usage.completion_tokens;
        self.prompt_tokens = self.prompt_tokens + usage.prompt_tokens;
        self.total_tokens = self.total_tokens + usage.total_tokens;
        self.query_count = self.query_count + 1;
        self.cost = self.cost + cost;
    }

    /// Counts one lookup served from the cache; no other field moves.
    pub fn record_hit(&mut self)
        requires
            old(self).cache_retrievals < u64::MAX,
        ensures
            *final(self) == spec_record_hit(*old(self)),
    {
        self.cache_retrievals = self.cache_retrievals + 1;
    }

    /// Zeroes usage, cost and query count; the cache-retrieval count is
    /// left as it was.
    pub fn reset(&mut self)
        ensures
            *final(self) == spec_reset(*old(self)),
            final(self).cache_retrievals == old(self).cache_retrievals,
            final(self).completion_tokens == 0,
            final(self).prompt_tokens == 0,
            final(self).total_tokens == 0,
            final(self).query_count == 0,
            final(self).cost == 0,
    {
        self.completion_tokens = 0;
        self.prompt_tokens = 0;
        self.total_tokens = 0;
        self.query_count = 0;
        self.cost = 0;
    }

    /// A read-only copy of the current totals.
    pub fn snapshot(&self) -> (b: Bill)
        ensures
            b == *self,
    {
        *self
    }
}

/// One billing event: a paid miss with its usage and cost, or a lookup
/// served from the cache.
pub enum BillEvent {
    Miss(Usage, u64),
    Hit,
}

/// The bill after a sequence of events is recorded in order.
pub open spec fn spec_apply_events(b: Bill, evs: Seq<BillEvent>) -> Bill
    decreases evs.len(),
{
    if evs.len() == 0 {
        b
    } else {
        let prev = spec_apply_events(b, evs.drop_last());
        match evs.last() {
            BillEvent::Miss(u, c) => spec_record_miss(prev, u, c),
            BillEvent::Hit => spec_record_hit(prev),
        }
    }
}

/// Total prompt tokens over the misses of an event sequence.
pub open spec fn miss_prompt_sum(evs: Seq<BillEvent>) -> int
    decreases evs.len(),
{
    if evs.len() == 0 {
        0
    } else {
        miss_prompt_sum(evs.drop_last()) + match evs.last() {
            BillEvent::Miss(u, _) => u.prompt_tokens as int,
            BillEvent::Hit => 0,
        }
    }
}

/// Total completion tokens over the misses of an event sequence.
pub open spec fn miss_completion_sum(evs: Seq<BillEvent>) -> int
    decreases evs.len(),
{
    if evs.len() == 0 {
        0
    } else {
        miss_completion_sum(evs.drop_last()) + match evs.last() {
            BillEvent::Miss(u, _) => u.completion_tokens as int,
            BillEvent::Hit => 0,
        }
    }
}

/// Total tokens over the misses of an event sequence.
pub open spec fn miss_total_sum(evs: Seq<BillEvent>) -> int
    decreases evs.len(),
{
    if evs.len() == 0 {
        0
    } else {
        miss_total_sum(evs.drop_last()) + match evs.last() {
            BillEvent::Miss(u, _) => u.total_tokens as int,
            BillEvent::Hit => 0,
        }
    }
}

/// Total cost over the misses of an event sequence.
pub open spec fn miss_cost_sum(evs: Seq<BillEvent>) -> int
    decreases evs.len(),
{
    if evs.len() == 0 {
        0
    } else {
        miss_cost_sum(evs.drop_last()) + match evs.last() {
            BillEvent::Miss(_, c) => c as int,
            BillEvent::Hit => 0,
        }
    }
}

/// How many misses an event sequence holds.
pub open spec fn miss_count(evs: Seq<BillEvent>) -> int
    decreases evs.len(),
{
    if evs.len() == 0 {
        0
    } else {
        miss_count(evs.drop_last()) + match evs.last() {
            BillEvent::Miss(_, _) => 1int,
            BillEvent::Hit => 0,
        }
    }
}

/// How many hits an event sequence holds.
pub open spec fn hit_count(evs: Seq<BillEvent>) -> int
    decreases evs.len(),
{
    if evs.len() == 0 {
        0
    } else {
        hit_count(evs.drop_last()) + match evs.last() {
            BillEvent::Miss(_, _) => 0int,
            BillEvent::Hit => 1,
        }
    }
}

/// Every event total is non-negative.
proof fn lemma_event_sums_nonneg(evs: Seq<BillEvent>)
    ensures
        miss_prompt_sum(evs) >= 0,
        miss_completion_sum(evs) >= 0,
        miss_total_sum(evs) >= 0,
        miss_cost_sum(evs) >= 0,
        miss_count(evs) >= 0,
        hit_count(evs) >= 0,
    decreases evs.len(),
{
    if evs.len() > 0 {
        lemma_event_sums_nonneg(evs.drop_last());
    }
}

/// Recording any sequence of events moves each counter by the event
/// totals alone: the usage totals, cost and query count gain exactly the
/// sums over the misses — in whatever order the misses arrive and
/// however hits interleave — and the cache-retrieval count gains exactly
/// the number of hits.
pub proof fn law_events_additive(b: Bill, evs: Seq<BillEvent>)
    requires
        b.prompt_tokens + miss_prompt_sum(evs) <= u64::MAX,
        b.completion_tokens + miss_completion_sum(evs) <= u64::MAX,
        b.total_tokens + miss_total_sum(evs) <= u64::MAX,
        b.cost + miss_cost_sum(evs) <= u64::MAX,
        b.query_count + miss_count(evs) <= u64::MAX,
        b.cache_retrievals + hit_count(evs) <= u64::MAX,
    ensures
        spec_apply_events(b, evs) == (Bill {
            prompt_tokens: (b.prompt_tokens + miss_prompt_sum(evs)) as u64,
            completion_tokens: (b.completion_tokens + miss_completion_sum(evs)) as u64,
            total_tokens: (b.total_tokens + miss_total_sum(evs)) as u64,
            cost: (b.cost + miss_cost_sum(evs)) as u64,
            query_count: (b.query_count + miss_count(evs)) as u64,
            cache_retrievals: (b.cache_retrievals + hit_count(evs)) as u64,
        }),
    decreases evs.len(),
{
    if evs.len() > 0 {
        lemma_event_sums_nonneg(evs.drop_last());
        law_events_additive(b, evs.drop_last());
    }
}

/// Two event sequences with the same miss totals and the same hit count
/// drive the bill to the same place: the order of events never matters.
pub proof fn law_events_order_independent(b: Bill, evs1: Seq<BillEvent>, evs2: Seq<BillEvent>)
    requires
        miss_prompt_sum(evs1) == miss_prompt_sum(evs2),
        miss_completion_sum(evs1) == miss_completion_sum(evs2),
        miss_total_sum(evs1) == miss_total_sum(evs2),
        miss_cost_sum(evs1) == miss_cost_sum(evs2),
        miss_count(evs1) == miss_count(evs2),
        hit_count(evs1) == hit_count(evs2),
        b.prompt_tokens + miss_prompt_sum(evs1) <= u64::MAX,
        b.completion_tokens + miss_completion_sum(evs1) <= u64::MAX,
        b.total_tokens + miss_total_sum(evs1) <= u64::MAX,
        b.cost + miss_cost_sum(evs1) <= u64::MAX,
        b.query_count + miss_count(evs1) <= u64::MAX,
        b.cache_retrievals + hit_count(evs1) <= u64::MAX,
    ensures
        spec_apply_events(b, evs1) == spec_apply_events(b, evs2),
{
    law_events_additive(b, evs1);
    law_events_additive(b, evs2);
}

/// Recording misses is additive and order-independent for the totals, and
/// hits recorded in between do not disturb them: the two misses may land in
/// either order, with any number of interleaved hits, and the usage totals,
/// cost and query count come out the same.
pub proof fn law_record_miss_order_independent(b: Bill, u1: Usage, c1: u64, u2: Usage, c2: u64)
    requires
        b.completion_tokens + u1.completion_tokens + u2.completion_tokens <= u64::MAX,
        b.prompt_tokens + u1.prompt_tokens + u2.prompt_tokens <= u64::MAX,
        b.total_tokens + u1.total_tokens + u2.total_tokens <= u64::MAX,
        b.query_count + 2 <= u64::MAX,
        b.cost + c1 + c2 <= u64::MAX,
    ensures
        spec_record_miss(spec_record_miss(b, u1, c1), u2, c2) == spec_record_miss(
            spec_record_miss(b, u2, c2),
            u1,
            c1,
        ),
        spec_record_miss(spec_record_miss(b, u1, c1), u2, c2).total_tokens == b.total_tokens
            + u1.total_tokens + u2.total_tokens,
        spec_record_miss(spec_record_miss(b, u1, c1), u2, c2).prompt_tokens == b.prompt_tokens
            + u1.prompt_tokens + u2.prompt_tokens,
        spec_record_miss(spec_record_miss(b, u1, c1), u2, c2).completion_tokens
            == b.completion_tokens + u1.completion_tokens + u2.completion_tokens,
        spec_record_miss(spec_record_miss(b, u1, c1), u2, c2).cost == b.cost + c1 + c2,
        spec_record_miss(spec_record_miss(b, u1, c1), u2, c2).query_count == b.query_count + 2,
{
}

/// A hit recorded before a miss gives the same bill as one recorded after
/// it: hits and misses touch disjoint fields.
pub proof fn law_hit_miss_commute(b: Bill, u: Usage, c: u64)
    requires
        b.can_absorb(u, c),
        b.cache_retrievals < u64::MAX,
    ensures
        spec_record_miss(spec_record_hit(b), u, c) == spec_record_hit(spec_record_miss(b, u, c)),
{
}

/// Resetting zeroes usage, cost and query count and preserves the
/// cache-retrieval count, whatever the bill held before.
pub proof fn law_reset_selective(b: Bill)
    ensures
        spec_reset(b).query_count == 0,
        spec_reset(b).total_tokens == 0,
        spec_reset(b).prompt_tokens == 0,
        spec_reset(b).completion_tokens == 0,
        spec_reset(b).cost == 0,
        spec_reset(b).cache_retrievals == b.cache_retrievals,
{
}

} // verus!
