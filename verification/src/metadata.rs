pub mod clients;
pub mod models;
pub mod provider;

use vstd::prelude::*;
use crate::error::AppError;
use crate::metadata::models::{MetadataResult, RateLimit, RateLimitConfig, ServiceType};
use crate::metadata::models::spec_limit_for;
use crate::metadata::provider::{Admission, TokenBucket, MAX_PER_SECONDS};

verus! {

/// What one provider's search call came back with: a (possibly empty)
/// result list, or a failure.  A provider counts as having answered the
/// query only when it returned at least one result.
pub enum FetchOutcome {
    Results(Vec<MetadataResult>),
    Failed(AppError),
}

/// An outcome answers the query when it holds at least one result.
pub open spec fn outcome_succeeds(o: FetchOutcome) -> bool {
    match o {
        FetchOutcome::Results(rs) => rs@.len() > 0,
        FetchOutcome::Failed(_) => false,
    }
}

/// The first result of a successful outcome.
pub open spec fn outcome_first(o: FetchOutcome) -> MetadataResult
    recommends
        outcome_succeeds(o),
{
    match o {
        FetchOutcome::Results(rs) => rs@[0],
        FetchOutcome::Failed(_) => arbitrary(),
    }
}

/// The least index of a successful outcome, if any.
pub open spec fn first_success(os: Seq<FetchOutcome>) -> Option<int>
    decreases os.len(),
{
    if os.len() == 0 {
        None
    } else if outcome_succeeds(os[0]) {
        Some(0int)
    } else {
        match first_success(os.skip(1)) {
            Some(k) => Some(k + 1),
            None => None,
        }
    }
}

/// When the first `i` outcomes all fail, the first success of the whole
/// sequence is the first success of the rest, shifted by `i`.
pub proof fn lemma_first_success_skip(os: Seq<FetchOutcome>, i: int)
    requires
        0 <= i <= os.len(),
        forall|j: int| 0 <= j < i ==> !outcome_succeeds(os[j]),
    ensures
        first_success(os) == match first_success(os.skip(i)) {
            Some(k) => Some(i + k),
            None => None::<int>,
        },
    decreases i,
{
    if i == 0 {
        assert(os.skip(0) =~= os);
    } else {
        lemma_first_success_skip(os, i - 1);
        let rest = os.skip(i - 1);
        assert(rest[0] == os[i - 1]);
        assert(rest.skip(1) =~= os.skip(i));
    }
}

/// All five rate limits are positive and bounded.
pub open spec fn limits_ok(c: RateLimitConfig) -> bool {
    forall|s: ServiceType| limit_ok(#[trigger] spec_limit_for(c, s))
}

/// A single rate limit is positive and bounded.
pub open spec fn limit_ok(l: RateLimit) -> bool {
    1 <= l.calls && 1 <= l.per_seconds <= MAX_PER_SECONDS
}

/// The provider priority order used when none is configured: all five
/// services, most authoritative first.
pub fn default_priority_order() -> (r: Vec<ServiceType>)
    ensures
        r@ =~= seq![
            ServiceType::Simkl,
            ServiceType::Tmdb,
            ServiceType::Tvdb,
            ServiceType::Imdb,
            ServiceType::Mal,
        ],
{
    let mut v: Vec<ServiceType> = Vec::new();
    v.push(ServiceType::Simkl);
    v.push(ServiceType::Tmdb);
    v.push(ServiceType::Tvdb);
    v.push(ServiceType::Imdb);
    v.push(ServiceType::Mal);
    v
}

/// The ordered provider chain for one run: a fixed priority order, and
/// one token bucket per position, each with the budget configured for
/// that service.
pub struct MetadataService {
    pub order: Vec<ServiceType>,
    pub buckets: Vec<TokenBucket>,
}

/// The progress of one query through the chain: the position of the next
/// provider to consult.
pub struct LookupState {
    pub next: usize,
}

/// What the chain asks its driver to do next for one query.
pub enum ChainStep {
    /// A rate-limit token was taken: consult this provider now.
    Query(ServiceType),
    /// The next provider's budget is exhausted: wait, then ask again.
    /// No query is dropped for rate limiting, only delayed.
    Wait { millis: u64 },
    /// Every provider has been consulted without an answer.
    Exhausted,
}

impl MetadataService {
    /// One bucket per provider, every bucket well-formed.
    pub open spec fn wf(&self) -> bool {
        &&& self.buckets@.len() == self.order@.len()
        &&& forall|i: int| 0 <= i < self.buckets@.len() ==> (#[trigger] self.buckets@[i]).wf()
    }

    /// Build the chain in the given priority order, each provider behind
    /// a full token bucket of its configured budget.
    pub fn new(
        priority_order: Vec<ServiceType>,
        rate_limits: &RateLimitConfig,
        now_ms: u64,
    ) -> (r: MetadataService)
        requires
            limits_ok(*rate_limits),
        ensures
            r.wf(),
            r.order == priority_order,
            r.buckets@.len() == priority_order@.len(),
            forall|i: int|
                0 <= i < r.buckets@.len() ==> {
                    let l = spec_limit_for(*rate_limits, r.order@[i]);
                    &&& (#[trigger] r.buckets@[i]).calls == l.calls
                    &&& r.buckets@[i].per_seconds == l.per_seconds
                    &&& r.buckets@[i].last_refill_ms == now_ms
                    &&& r.buckets@[i].units == r.buckets@[i].capacity_units()
                },
    {
        let mut buckets: Vec<TokenBucket> = Vec::new();
        let n = priority_order.len();
        for i in 0..n
            invariant
                buckets@.len() == i,
                forall|k: int| 0 <= k < i ==> (#[trigger] buckets@[k]).wf(),
                forall|k: int|
                    0 <= k < i ==> {
                        let l = spec_limit_for(*rate_limits, priority_order@[k]);
                        &&& (#[trigger] buckets@[k]).calls == l.calls
                        &&& buckets@[k].per_seconds == l.per_seconds
                        &&& buckets@[k].last_refill_ms == now_ms
                        &&& buckets@[k].units == buckets@[k].capacity_units()
                    },
                n == priority_order@.len(),
                limits_ok(*rate_limits),
        {
            let service = priority_order[i];
            let limit = rate_limits.limit_for(service);
            buckets.push(TokenBucket::new(limit, now_ms));
        }
        MetadataService { order: priority_order, buckets }
    }

    /// How many providers the chain holds.
    pub fn provider_count(&self) -> (n: usize)
        ensures
            n == self.order@.len(),
    {
        self.order.len()
    }

    /// Start resolving one query at the front of the chain.
    pub fn begin_lookup(&self) -> (st: LookupState)
        ensures
            st.next == 0,
    {
        LookupState { next: 0 }
    }

    /// The next action for a query: consult the rate limiter of the next
    /// provider in order, and either hand out that provider (its token
    /// taken) or the time to wait; once past the last provider, report
    /// the chain exhausted.
    pub fn next_step(&mut self, st: &LookupState, now_ms: u64) -> (step: ChainStep)
        requires
            old(self).wf(),
            st.next <= old(self).order@.len(),
            st.next < old(self).order@.len() ==> old(self).buckets@[st.next as int].last_refill_ms
                <= now_ms,
        ensures
            final(self).wf(),
            final(self).order == old(self).order,
            final(self).buckets@.len() == old(self).buckets@.len(),
            forall|j: int|
                0 <= j < old(self).buckets@.len() && j != st.next as int
                    ==> final(self).buckets@[j] == old(self).buckets@[j],
            st.next == old(self).order@.len() ==> step == ChainStep::Exhausted && *final(self)
                == *old(self),
            st.next < old(self).order@.len() ==> {
                let b = old(self).buckets@[st.next as int];
                &&& final(self).buckets@[st.next as int].calls == b.calls
                &&& final(self).buckets@[st.next as int].per_seconds == b.per_seconds
                &&& (b.refilled_units(now_ms as int) >= b.cost_units(1) ==> step == ChainStep::Query(
                    old(self).order@[st.next as int],
                ))
                &&& (b.refilled_units(now_ms as int) < b.cost_units(1) ==> {
                    let bu = final(self).buckets@[st.next as int];
                    step matches ChainStep::Wait { millis } && millis >= 1 && bu.units + millis
                        * bu.calls >= bu.cost_units(1) && bu.units + (millis - 1) * bu.calls
                        < bu.cost_units(1)
                })
            },
    {
        if st.next == self.order.len() {
            return ChainStep::Exhausted;
        }
        let service = self.order[st.next];
        let bucket = &mut self.buckets[st.next];
        match bucket.acquire_or_wait(now_ms) {
            Admission::Proceed => ChainStep::Query(service),
            Admission::Wait { millis } => ChainStep::Wait { millis },
        }
    }

    /// Digest one provider's outcome: an answered query yields its first
    /// result and ends the lookup (providers after the first success are
    /// never consulted); anything else advances to the next provider.
    pub fn on_outcome(
        &self,
        st: &mut LookupState,
        outcome: FetchOutcome,
    ) -> (r: Option<MetadataResult>)
        requires
            old(st).next < self.order@.len(),
        ensures
            outcome_succeeds(outcome) ==> r == Some(outcome_first(outcome)) && final(st).next
                == old(st).next,
            !outcome_succeeds(outcome) ==> r is None && final(st).next == old(st).next + 1,
    {
        let count = self.order.len();
        assert(st.next < count);
        match outcome {
            FetchOutcome::Results(mut rs) => {
                if rs.len() > 0 {
                    Some(rs.remove(0))
                } else {
                    st.next = st.next + 1;
                    None
                }
            },
            FetchOutcome::Failed(_) => {
                st.next = st.next + 1;
                None
            },
        }
    }
}

/// Resolve one query given, hypothetically, every provider's outcome:
/// the result of the first provider in order whose outcome answers the
/// query, and the number of providers consulted.  When no outcome
/// answers, every provider is consulted and the single terminal error is
/// `AllProvidersFailed`.
#[verifier::loop_isolation(false)]
pub fn resolve_with_outcomes(
    order: &Vec<ServiceType>,
    outcomes: Vec<FetchOutcome>,
) -> (r: (Result<MetadataResult, AppError>, usize))
    requires
        outcomes@.len() == order@.len(),
    ensures
        first_success(outcomes@) matches Some(k) ==> r.1 == k + 1 && r.0 == Result::<
            MetadataResult,
            AppError,
        >::Ok(outcome_first(outcomes@[k])),
        first_success(outcomes@) is None ==> r.1 == order@.len() && r.0 == Result::<
            MetadataResult,
            AppError,
        >::Err(AppError::AllProvidersFailed),
{
    let ghost all = outcomes@;
    let total: usize = outcomes.len();
    let mut rest = outcomes;
    let mut i: usize = 0;
    loop
        invariant
            i <= total,
            total == all.len(),
            all.len() == order@.len(),
            rest@ =~= all.skip(i as int),
            forall|j: int| 0 <= j < i ==> !outcome_succeeds(all[j]),
        decreases total - i,
    {
        if rest.len() == 0 {
            proof {
                assert(all.skip(i as int).len() == 0);
                assert(i == total);
                lemma_first_success_skip(all, i as int);
                assert(first_success(all) is None);
            }
            return (Err(AppError::AllProvidersFailed), i);
        }
        let o = rest.remove(0);
        proof {
            assert(o == all.skip(i as int)[0]);
            assert(o == all[i as int]);
            assert(rest@ =~= all.skip(i + 1));
        }
        match o {
            FetchOutcome::Results(mut rs) => {
                if rs.len() > 0 {
                    proof {
                        assert(outcome_succeeds(all[i as int]));
                        assert(all.skip(i as int)[0] == all[i as int]);
                        assert(first_success(all.skip(i as int)) == Some(0int));
                        lemma_first_success_skip(all, i as int);
                        assert(first_success(all) == Some(i as int));
                        assert(outcome_first(all[i as int]) == rs@[0]);
                    }
                    let first = rs.remove(0);
                    return (Ok(first), i + 1);
                }
            },
            FetchOutcome::Failed(_) => {},
        }
        proof {
            assert(!outcome_succeeds(all[i as int]));
        }
        i = i + 1;
    }
}

} // verus!
