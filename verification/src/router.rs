//! Provider health bookkeeping, failover across ranked candidates, and the
//! model catalogue the router advertises.
use vstd::prelude::*;
use vstd::string::*;
use crate::error::{RouterError, error_text};
use crate::models::{ChatCompletionRequest, ModelItem, ModelListResponse};
use crate::text::owned;
use crate::scoring::Disqualification;

verus! {

/// Consecutive failures after which a provider is marked unhealthy.
pub const UNHEALTHY_AFTER_FAILURES: u32 = 3;

/// Per-provider health and traffic counters.
#[derive(Clone, Copy, PartialEq, Eq, Structural, Debug)]
pub struct HealthCounters {
    pub is_healthy: bool,
    pub consecutive_failures: u32,
    pub total_requests: u64,
    pub total_errors: u64,
}

impl HealthCounters {
    /// A freshly registered provider: healthy, no traffic.
    pub fn new() -> (h: Self)
        ensures
            h == (HealthCounters {
                is_healthy: true,
                consecutive_failures: 0,
                total_requests: 0,
                total_errors: 0,
            }),
    {
        HealthCounters { is_healthy: true, consecutive_failures: 0, total_requests: 0, total_errors: 0 }
    }

    pub open spec fn after_success(self) -> HealthCounters {
        HealthCounters {
            is_healthy: true,
            consecutive_failures: 0,
            total_requests: (self.total_requests + 1) as u64,
            total_errors: self.total_errors,
        }
    }

    pub open spec fn after_failure(self) -> HealthCounters {
        let f = (self.consecutive_failures + 1) as u32;
        HealthCounters {
            is_healthy: self.is_healthy && f < UNHEALTHY_AFTER_FAILURES,
            consecutive_failures: f,
            total_requests: self.total_requests,
            total_errors: (self.total_errors + 1) as u64,
        }
    }

    /// A dispatch that the provider served.
    pub fn record_success(&mut self)
        requires
            old(self).total_requests < u64::MAX,
        ensures
            *final(self) == old(self).after_success(),
    {
        self.is_healthy = true;
        self.consecutive_failures = 0;
        self.total_requests = self.total_requests + 1;
    }

    /// A dispatch that the provider failed; the third consecutive failure marks
    /// it unhealthy.
    pub fn record_failure(&mut self)
        requires
            old(self).consecutive_failures < u32::MAX,
            old(self).total_errors < u64::MAX,
        ensures
            *final(self) == old(self).after_failure(),
    {
        self.consecutive_failures = self.consecutive_failures + 1;
        self.total_errors = self.total_errors + 1;
        if self.consecutive_failures >= UNHEALTHY_AFTER_FAILURES {
            self.is_healthy = false;
        }
    }

    /// The verdict of an explicit health probe.
    pub fn record_probe(&mut self, healthy: bool)
        ensures
            *final(self) == (HealthCounters { is_healthy: healthy, ..*old(self) }),
    {
        self.is_healthy = healthy;
    }
}

/// Applies `n` consecutive failures.
pub open spec fn failures(h: HealthCounters, n: nat) -> HealthCounters
    decreases n,
{
    if n == 0 {
        h
    } else {
        failures(h, (n - 1) as nat).after_failure()
    }
}

/// Three consecutive failures, from any state that leaves room in the
/// counters, leave a provider unhealthy; failures never make one healthy.
pub proof fn lemma_three_failures_mark_unhealthy(h: HealthCounters, n: nat)
    requires
        n >= 3,
        h.consecutive_failures + n <= u32::MAX,
        h.total_errors + n <= u64::MAX,
    ensures
        !failures(h, n).is_healthy,
        failures(h, n).consecutive_failures == h.consecutive_failures + n,
        failures(h, n).total_errors == h.total_errors + n,
        failures(h, n).total_requests == h.total_requests,
    decreases n,
{
    lemma_failures_count(h, n);
    if n > 3 {
        lemma_three_failures_mark_unhealthy(h, (n - 1) as nat);
    } else {
        lemma_failures_count(h, 2);
    }
}

proof fn lemma_failures_count(h: HealthCounters, n: nat)
    requires
        h.consecutive_failures + n <= u32::MAX,
        h.total_errors + n <= u64::MAX,
    ensures
        failures(h, n).consecutive_failures == h.consecutive_failures + n,
        failures(h, n).total_errors == h.total_errors + n,
        failures(h, n).total_requests == h.total_requests,
        failures(h, n).is_healthy ==> h.is_healthy,
    decreases n,
{
    if n > 0 {
        lemma_failures_count(h, (n - 1) as nat);
    }
}

/// A success clears the failure streak and restores health, whatever came before.
pub proof fn lemma_success_restores(h: HealthCounters)
    requires
        h.total_requests < u64::MAX,
    ensures
        h.after_success().is_healthy,
        h.after_success().consecutive_failures == 0,
        h.after_success().total_errors == h.total_errors,
        h.after_success().total_requests == h.total_requests + 1,
{
}

/// How an explicit health probe reads: healthy as the provider reported,
/// or unhealthy with the error's text where the probe failed.
pub fn probe_verdict(result: Result<bool, RouterError>) -> (r: (bool, Option<String>))
    ensures
        match result {
            Ok(h) => r.0 == h && r.1 is None,
            Err(e) => ({
                &&& !r.0
                &&& r.1 matches Some(m)
                &&& m@ == error_text(e)
            }),
        },
{
    match result {
        Ok(h) => (h, None),
        Err(e) => (false, Some(e.message())),
    }
}

/// How a dispatch to one ranked candidate ended.
pub enum DispatchOutcome {
    /// The provider answered.
    Delivered,
    /// The provider failed with this error.
    Failed(RouterError),
    /// The candidate's provider is no longer registered.
    ProviderMissing,
}

/// What the router does next.
pub enum FailoverStep {
    /// Dispatch to the candidate at this rank.
    Dispatch(usize),
    /// The candidate at this rank answered.
    Served(usize),
    /// No candidate answered.
    Exhausted(RouterError),
}

/// Failover across ranked candidates: candidates are tried in rank order, at
/// most `max_retries + 1` of them, and the first that answers serves the
/// request.
pub struct FailoverRun {
    pub ranked: usize,
    pub max_retries: usize,
    pub attempts: usize,
    pub served: Option<usize>,
    pub last_error: Option<RouterError>,
    pub streaming: bool,
}

impl FailoverRun {
    /// The run's invariant.
    pub open spec fn wf(&self) -> bool {
        &&& self.attempts <= self.ranked
        &&& self.attempts <= self.max_retries + 1
        &&& (self.served matches Some(i) ==> i + 1 == self.attempts)
    }

    /// Whether another candidate may be tried.
    pub open spec fn can_dispatch(&self) -> bool {
        self.served is None && self.attempts < self.ranked && self.attempts <= self.max_retries
    }

    pub fn new(ranked: usize, max_retries: usize, streaming: bool) -> (r: Self)
        ensures
            r.wf(),
            r.ranked == ranked,
            r.max_retries == max_retries,
            r.attempts == 0,
            r.served is None,
            r.last_error is None,
            r.streaming == streaming,
    {
        FailoverRun { ranked, max_retries, attempts: 0, served: None, last_error: None, streaming }
    }

    /// The next step: dispatch to the next candidate in rank order, report
    /// the candidate that served, or give up with the last provider error
    /// (a generic one where no provider reported an error).
    pub fn next_step(&mut self) -> (s: FailoverStep)
        requires
            old(self).wf(),
        ensures
            final(self).wf(),
            final(self).ranked == old(self).ranked,
            final(self).max_retries == old(self).max_retries,
            final(self).served == old(self).served,
            final(self).streaming == old(self).streaming,
            match s {
                FailoverStep::Dispatch(i) => {
                    &&& old(self).can_dispatch()
                    &&& i == old(self).attempts
                    &&& final(self).attempts == old(self).attempts + 1
                    &&& final(self).last_error == old(self).last_error
                },
                FailoverStep::Served(i) => {
                    &&& old(self).served == Some(i)
                    &&& final(self).attempts == old(self).attempts
                },
                FailoverStep::Exhausted(e) => {
                    &&& old(self).served is None
                    &&& !old(self).can_dispatch()
                    &&& final(self).attempts == old(self).attempts
                    &&& match old(self).last_error {
                        Some(le) => e == le,
                        None => is_exhausted_error(e, old(self).streaming),
                    }
                },
            },
    {
        if let Some(i) = self.served {
            return FailoverStep::Served(i);
        }
        if self.attempts < self.ranked && self.attempts <= self.max_retries {
            let i = self.attempts;
            self.attempts = self.attempts + 1;
            return FailoverStep::Dispatch(i);
        }
        let err = match self.last_error.take() {
            Some(e) => e,
            None => make_exhausted_error(self.streaming),
        };
        FailoverStep::Exhausted(err)
    }

    /// Records how the last dispatch ended.
    pub fn record(&mut self, outcome: DispatchOutcome)
        requires
            old(self).wf(),
            old(self).attempts > 0,
            old(self).served is None,
        ensures
            final(self).wf(),
            final(self).ranked == old(self).ranked,
            final(self).max_retries == old(self).max_retries,
            final(self).attempts == old(self).attempts,
            final(self).streaming == old(self).streaming,
            match outcome {
                DispatchOutcome::Delivered => {
                    &&& final(self).served == Some((old(self).attempts - 1) as usize)
                    &&& final(self).last_error == old(self).last_error
                },
                DispatchOutcome::Failed(e) => {
                    &&& final(self).served is None
                    &&& final(self).last_error == Some(e)
                },
                DispatchOutcome::ProviderMissing => {
                    &&& final(self).served is None
                    &&& final(self).last_error == old(self).last_error
                },
            },
    {
        match outcome {
            DispatchOutcome::Delivered => {
                self.served = Some(self.attempts - 1);
            },
            DispatchOutcome::Failed(e) => {
                self.last_error = Some(e);
            },
            DispatchOutcome::ProviderMissing => {},
        }
    }
}

/// The error reported when every candidate was tried and none reported an
/// error of its own.
pub open spec fn is_exhausted_error(e: RouterError, streaming: bool) -> bool {
    e matches RouterError::NoHealthyProvider(m) && m@ == (if streaming {
        "All candidate providers failed for stream"@
    } else {
        "All candidate providers failed"@
    })
}

pub fn make_exhausted_error(streaming: bool) -> (e: RouterError)
    ensures
        is_exhausted_error(e, streaming),
{
    if streaming {
        RouterError::NoHealthyProvider(String::from_str("All candidate providers failed for stream"))
    } else {
        RouterError::NoHealthyProvider(String::from_str("All candidate providers failed"))
    }
}

/// The routing aliases the router advertises ahead of provider models.
pub open spec fn virtual_model_ids() -> Seq<Seq<char>> {
    seq!["router:fast"@, "router:hard"@, "router:auto"@, "fast"@, "hard"@]
}

/// (model id, owner) of every configured model, provider by provider.
pub open spec fn owner_entries(ps: Seq<(String, Vec<String>)>) -> Seq<(Seq<char>, Seq<char>)>
    decreases ps.len(),
{
    if ps.len() == 0 {
        Seq::empty()
    } else {
        owner_entries(ps.drop_last()) + ps.last().1@.map_values(|m: String| (m@, ps.last().0@))
    }
}

/// The advertised catalogue: the routing aliases, owned by the router, then
/// every provider's models, owned by their provider.
pub open spec fn catalogue(ps: Seq<(String, Vec<String>)>) -> Seq<(Seq<char>, Seq<char>)> {
    virtual_model_ids().map_values(|v: Seq<char>| (v, "syntrop-routerd"@)) + owner_entries(ps)
}

pub open spec fn item_is(item: ModelItem, entry: (Seq<char>, Seq<char>), now: u64) -> bool {
    &&& item.id@ == entry.0
    &&& item.owned_by@ == entry.1
    &&& item.object@ == "model"@
    &&& item.created == now
}

fn model_item(id: String, owner: String, now: u64) -> (m: ModelItem)
    ensures
        m.id == id,
        m.owned_by == owner,
        m.object@ == "model"@,
        m.created == now,
{
    ModelItem { id, object: String::from_str("model"), created: now, owned_by: owner }
}

/// The model list the router serves: its routing aliases, then each
/// provider's models in the order given.
pub fn list_all_models(now: u64, providers: &Vec<(String, Vec<String>)>) -> (r: ModelListResponse)
    ensures
        r.object@ == "list"@,
        r.data@.len() == catalogue(providers@).len(),
        forall|k: int| 0 <= k < r.data@.len() ==> item_is(#[trigger] r.data@[k], catalogue(providers@)[k], now),
{
    let mut data: Vec<ModelItem> = Vec::new();
    data.push(model_item(String::from_str("router:fast"), String::from_str("syntrop-routerd"), now));
    data.push(model_item(String::from_str("router:hard"), String::from_str("syntrop-routerd"), now));
    data.push(model_item(String::from_str("router:auto"), String::from_str("syntrop-routerd"), now));
    data.push(model_item(String::from_str("fast"), String::from_str("syntrop-routerd"), now));
    data.push(model_item(String::from_str("hard"), String::from_str("syntrop-routerd"), now));
    let ghost virt = virtual_model_ids().map_values(|v: Seq<char>| (v, "syntrop-routerd"@));
    assert(forall|k: int| 0 <= k < data@.len() ==> item_is(#[trigger] data@[k], virt[k], now));
    assert(owner_entries(providers@.take(0)) =~= Seq::<(Seq<char>, Seq<char>)>::empty());
    let mut i: usize = 0;
    while i < providers.len()
        invariant
            i <= providers@.len(),
            virt == virtual_model_ids().map_values(|v: Seq<char>| (v, "syntrop-routerd"@)),
            data@.len() == (virt + owner_entries(providers@.take(i as int))).len(),
            forall|k: int| 0 <= k < data@.len() ==> item_is(#[trigger] data@[k], (virt + owner_entries(providers@.take(i as int)))[k], now),
        decreases providers.len() - i,
    {
        let ghost before = virt + owner_entries(providers@.take(i as int));
        let owner = &providers[i].0;
        let models = &providers[i].1;
        let ghost add = models@.map_values(|m: String| (m@, owner@));
        let mut j: usize = 0;
        while j < models.len()
            invariant
                j <= models@.len(),
                add == models@.map_values(|m: String| (m@, owner@)),
                data@.len() == before.len() + j,
                forall|k: int| 0 <= k < data@.len() ==> item_is(#[trigger] data@[k], (before + add)[k], now),
            decreases models.len() - j,
        {
            let item = model_item(models[j].clone(), owner.clone(), now);
            data.push(item);
            j = j + 1;
        }
        assert(providers@.take(i + 1).drop_last() =~= providers@.take(i as int));
        assert(owner_entries(providers@.take(i + 1)) =~= owner_entries(providers@.take(i as int)) + add);
        assert(virt + owner_entries(providers@.take(i + 1)) =~= before + add);
        i = i + 1;
    }
    assert(providers@.take(providers@.len() as int) =~= providers@);
    ModelListResponse { object: String::from_str("list"), data }
}

pub open spec fn count_true(s: Seq<bool>) -> nat
    decreases s.len(),
{
    if s.len() == 0 {
        0
    } else {
        count_true(s.drop_last()) + if s.last() {
            1nat
        } else {
            0nat
        }
    }
}

/// How many providers are healthy.
pub fn count_healthy(flags: &Vec<bool>) -> (n: usize)
    ensures
        n == count_true(flags@),
{
    let mut n: usize = 0;
    let mut i: usize = 0;
    while i < flags.len()
        invariant
            i <= flags@.len(),
            n == count_true(flags@.take(i as int)),
            n <= i,
        decreases flags.len() - i,
    {
        assert(flags@.take(i + 1).drop_last() =~= flags@.take(i as int));
        if flags[i] {
            n = n + 1;
        }
        i = i + 1;
    }
    assert(flags@.take(flags@.len() as int) =~= flags@);
    n
}

/// The request that a routing simulation scores: no messages, the named model
/// (`fast` where none), the given token budget as `max_tokens` (1024 where
/// none), and the given tier and streaming flag.
pub fn simulation_request(model: Option<&str>, tier: Option<&str>, estimated_tokens: Option<usize>, require_stream: bool) -> (r: ChatCompletionRequest)
    ensures
        r.model@ == match model {
            Some(m) => m@,
            None => "fast"@,
        },
        r.messages@.len() == 0,
        r.max_tokens == Some(match estimated_tokens {
            Some(t) => t,
            None => 1024usize,
        }),
        r.max_completion_tokens is None,
        r.stream == Some(require_stream),
        match tier {
            Some(t) => r.tier matches Some(rt) && rt@ == t@,
            None => r.tier is None,
        },
{
    ChatCompletionRequest {
        model: match model {
            Some(m) => owned(m),
            None => String::from_str("fast"),
        },
        messages: Vec::new(),
        max_tokens: Some(match estimated_tokens {
            Some(t) => t,
            None => 1024,
        }),
        max_completion_tokens: None,
        stream: Some(require_stream),
        tier: match tier {
            Some(t) => Some(owned(t)),
            None => None,
        },
    }
}

/// Every candidate was turned away, each for its context window.
pub open spec fn all_context_limited(ds: Seq<Disqualification>) -> bool {
    &&& ds.len() > 0
    &&& forall|i: int| 0 <= i < ds.len() ==> #[trigger] ds[i] is ContextLimitExceeded
}

/// The request size a context-window refusal names.
pub open spec fn requested_tokens_of(d: Disqualification) -> usize {
    match d {
        Disqualification::ContextLimitExceeded { tokens, .. } => tokens,
        _ => 0,
    }
}

/// The largest context window among the candidates turned away for theirs.
pub open spec fn largest_limit(ds: Seq<Disqualification>) -> usize
    decreases ds.len(),
{
    if ds.len() == 0 {
        0
    } else {
        let m = largest_limit(ds.drop_last());
        match ds.last() {
            Disqualification::ContextLimitExceeded { limit, .. } => if limit > m {
                limit
            } else {
                m
            },
            _ => m,
        }
    }
}

/// The error for a request that no candidate may serve, given why each was
/// turned away: where every one was too small for the request, the request
/// itself is too large (for the largest window offered); otherwise no
/// eligible provider was found.
pub fn routing_failure(model: &str, tier: &str, reasons: &Vec<Disqualification>) -> (e: RouterError)
    ensures
        all_context_limited(reasons@) ==> ({
            &&& e matches RouterError::ContextLimitExceeded {
                model: m,
                requested_tokens: t,
                context_limit: l,
            }
            &&& m@ == model@
            &&& t == requested_tokens_of(reasons@[0])
            &&& l == largest_limit(reasons@)
        }),
        !all_context_limited(reasons@) ==> ({
            &&& e matches RouterError::NoHealthyProvider(m)
            &&& m@ == "No eligible provider found for model '"@ + model@ + "' in tier '"@ + tier@
                + "'"@
        }),
{
    let mut all = reasons.len() > 0;
    let mut largest: usize = 0;
    let mut i: usize = 0;
    while i < reasons.len()
        invariant
            i <= reasons@.len(),
            all == (reasons@.len() > 0 && forall|j: int| 0 <= j < i ==> #[trigger] reasons@[j] is ContextLimitExceeded),
            largest == largest_limit(reasons@.subrange(0, i as int)),
        decreases reasons.len() - i,
    {
        assert(reasons@.subrange(0, i + 1).drop_last() =~= reasons@.subrange(0, i as int));
        match &reasons[i] {
            Disqualification::ContextLimitExceeded { limit, .. } => {
                if *limit > largest {
                    largest = *limit;
                }
            },
            _ => {
                all = false;
            },
        }
        i = i + 1;
    }
    assert(reasons@.subrange(0, reasons@.len() as int) =~= reasons@);
    if all {
        match &reasons[0] {
            Disqualification::ContextLimitExceeded { tokens, .. } => {
                RouterError::ContextLimitExceeded {
                    model: owned(model),
                    requested_tokens: *tokens,
                    context_limit: largest,
                }
            },
            _ => no_eligible_provider(model, tier),
        }
    } else {
        no_eligible_provider(model, tier)
    }
}

/// The error for a request that no candidate may serve.
pub fn no_eligible_provider(model: &str, tier: &str) -> (e: RouterError)
    ensures
        e matches RouterError::NoHealthyProvider(m) && m@ == "No eligible provider found for model '"@
            + model@ + "' in tier '"@ + tier@ + "'"@,
{
    let mut m = String::from_str("No eligible provider found for model '");
    m.append(model);
    m.append("' in tier '");
    m.append(tier);
    m.append("'");
    RouterError::NoHealthyProvider(m)
}

} // verus!
