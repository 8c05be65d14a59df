//! Scoring candidates, one request to the database at a time.

use vstd::hash_map::StringHashMap;
use vstd::prelude::*;

use crate::counts::{
    absorb, batch_count, batches, count_or_zero, known_or_zero, lookup_start, lookup_step,
    lemma_sorted, query_counts, query_failure_message, query_views, row_views, sorted, CountLookup,
    CountRow, CountStep, CountStepView, QueryFailure,
};
use crate::order::{increasing, lemma_text_irreflexive, lists_set, sorted_unique, text_below};
use crate::population::{usable, usable_urlmd5};
use crate::protocol::{
    optional_text, refusal, refuse, signal_views, Candidate, Details, Diagnostics, DiagnosticsView,
    GuidanceResponse, GuidanceScope, GuidanceSignal, ResponseView, ScoreDetails, SignalView,
    PROVIDER_ID,
};
use crate::provider::{Provider, ProviderView, CHANNEL};
use crate::ranking::{lemma_below_monotone, percentile_of};
use crate::text::texts;

verus! {

/// The digests that the database may know the candidates by.
pub open spec fn requested(candidates: Seq<Candidate>) -> Set<Seq<char>> {
    Set::new(
        |urlmd5: Seq<char>|
            exists|i: int|
                0 <= i < candidates.len() && usable(
                    optional_text((#[trigger] candidates[i]).lms_urlmd5),
                ) == Some(urlmd5),
    )
}

/// What a score request needs once the counts it misses are known.
pub struct ScorePlan<'a> {
    pub request_id: &'a str,
    pub candidates: &'a [Candidate],
    pub uncached: Vec<String>,
    pub cache_hits: u64,
}

impl<'a> ScorePlan<'a> {
    /// This is the plan for scoring `candidates` with `cached` counts at hand.
    pub open spec fn serves(
        self,
        request_id: Seq<char>,
        candidates: Seq<Candidate>,
        cached: Map<Seq<char>, u64>,
    ) -> bool {
        &&& self.request_id@ == request_id
        &&& self.candidates@ == candidates
        &&& texts(self.uncached@) == sorted(requested(candidates).difference(cached.dom()))
        &&& self.cache_hits == requested(candidates).intersect(cached.dom()).len()
    }
}

/// Waits for the rows of `lookup.query`.
pub struct ScoreFetching<'a> {
    pub lookup: CountLookup,
    pub plan: ScorePlan<'a>,
}

/// A score request with the counts that it missed.
pub struct ScoreReady<'a> {
    pub fetched: StringHashMap<u64>,
    pub plan: ScorePlan<'a>,
}

/// Where a score request stands.
pub enum ScoreStep<'a> {
    FetchCounts(ScoreFetching<'a>),
    Ready(ScoreReady<'a>),
    Respond(GuidanceResponse),
}

impl<'a> ScoreStep<'a> {
    /// The plan that a step carries on.
    pub open spec fn plan(self) -> ScorePlan<'a> {
        match self {
            ScoreStep::FetchCounts(fetching) => fetching.plan,
            ScoreStep::Ready(ready) => ready.plan,
            ScoreStep::Respond(_) => arbitrary(),
        }
    }
}

/// Why a provider does not score at all.
pub open spec fn score_refusal<C>(provider: ProviderView<C>) -> Option<ResponseView> {
    if !provider.prepared {
        Some(refusal("NOT_PREPARED"@, "provider must receive prepare before score"@, false))
    } else if provider.connection is None {
        Some(refusal("SNAPSHOT_UNAVAILABLE"@, "provider has no active SQLite snapshot"@, true))
    } else {
        None
    }
}

/// The first step of scoring `candidates`: a refusal, or the lookup of the digests
/// whose counts are not cached.
pub open spec fn begins<C>(
    provider: ProviderView<C>,
    request_id: Seq<char>,
    candidates: Seq<Candidate>,
    step: ScoreStep,
) -> bool {
    match score_refusal(provider) {
        Some(refused) => step matches ScoreStep::Respond(response) && response@ == refused,
        None => {
            &&& step.plan().serves(request_id, candidates, provider.cached_counts)
            &&& follows_lookup(
                step.plan(),
                lookup_start(requested(candidates).difference(provider.cached_counts.dom())),
                step,
            )
        },
    }
}

/// The step that a score request is at when its lookup is at `lookup`.
pub open spec fn follows_lookup(
    plan: ScorePlan,
    lookup: CountStepView,
    step: ScoreStep,
) -> bool {
    match lookup {
        CountStepView::Fetch { query, later, counts } => {
            &&& step matches ScoreStep::FetchCounts(fetching)
            &&& fetching.plan == plan
            &&& CountStep::Fetch(fetching.lookup)@ == lookup
        },
        CountStepView::Done(counts) => {
            &&& step matches ScoreStep::Ready(ready)
            &&& ready.plan == plan
            &&& ready.fetched@ == counts
        },
        CountStepView::Failed(message) => {
            &&& step matches ScoreStep::Respond(response)
            &&& response@ == refusal("SCORE_LOOKUP_FAILED"@, message, true)
        },
    }
}

fn after_lookup<'a>(plan: ScorePlan<'a>, lookup: CountStep) -> (step: ScoreStep<'a>)
    ensures
        follows_lookup(plan, lookup@, step),
{
    match lookup {
        CountStep::Fetch(lookup) => ScoreStep::FetchCounts(ScoreFetching { lookup, plan }),
        CountStep::Done(fetched) => ScoreStep::Ready(ScoreReady { fetched, plan }),
        CountStep::Failed(message) => ScoreStep::Respond(
            refuse("SCORE_LOOKUP_FAILED", message, true),
        ),
    }
}

/// The usable digests of the candidates, in increasing order.
fn requested_urlmd5s(candidates: &[Candidate]) -> (urlmd5s: Vec<String>)
    ensures
        lists_set(texts(urlmd5s@), requested(candidates@)),
{
    let mut found: Vec<String> = Vec::new();
    let mut i: usize = 0;
    assert(texts(found@).to_set() =~= requested(candidates@.take(0)));
    while i < candidates.len()
        invariant
            i <= candidates@.len(),
            texts(found@).to_set() == requested(candidates@.take(i as int)),
        decreases candidates@.len() - i,
    {
        let ghost before = found@;
        let ghost earlier = candidates@.take(i as int);
        let ghost longer = candidates@.take(i + 1);
        let ghost last = usable(optional_text(candidates@[i as int].lms_urlmd5));
        if let Some(urlmd5) = usable_urlmd5(&candidates[i].lms_urlmd5) {
            found.push(urlmd5.clone());
            assert(texts(found@) =~= texts(before).push(urlmd5@));
            proof {
                texts(before).lemma_push_to_set_commute(urlmd5@);
            }
        }
        proof {
            assert forall|u: Seq<char>| requested(longer).contains(u) <==> requested(
                earlier,
            ).contains(u) || last == Some(u) by {
                if requested(earlier).contains(u) {
                    let j = choose|j: int|
                        0 <= j < earlier.len() && usable(
                            optional_text((#[trigger] earlier[j]).lms_urlmd5),
                        ) == Some(u);
                    assert(longer[j] == earlier[j]);
                }
                if last == Some(u) {
                    assert(longer[i as int] == candidates@[i as int]);
                }
                if requested(longer).contains(u) {
                    let j = choose|j: int|
                        0 <= j < longer.len() && usable(
                            optional_text((#[trigger] longer[j]).lms_urlmd5),
                        ) == Some(u);
                    if j < i {
                        assert(longer[j] == earlier[j]);
                    }
                }
            }
            assert(texts(found@).to_set() =~= requested(longer));
        }
        i = i + 1;
    }
    assert(candidates@.take(i as int) =~= candidates@);
    sorted_unique(found.as_slice())
}

/// Parts the digests that are not cached from those that are, which are counted.
fn part_uncached(urlmd5s: &Vec<String>, cached: &StringHashMap<u64>) -> (parted: (Vec<String>, u64))
    requires
        increasing(texts(urlmd5s@)),
    ensures
        lists_set(texts(parted.0@), texts(urlmd5s@).to_set().difference(cached@.dom())),
        parted.1 == texts(urlmd5s@).to_set().intersect(cached@.dom()).len(),
{
    let ghost all = texts(urlmd5s@);
    let mut uncached: Vec<String> = Vec::new();
    let mut hits: u64 = 0;
    let mut i: usize = 0;
    assert(all.take(0).to_set() =~= Set::empty());
    assert(all.take(0).to_set().intersect(cached@.dom()) =~= Set::empty());
    assert(texts(uncached@).to_set() =~= all.take(0).to_set().difference(cached@.dom()));
    while i < urlmd5s.len()
        invariant
            i <= urlmd5s@.len(),
            hits <= i,
            all == texts(urlmd5s@),
            increasing(all),
            increasing(texts(uncached@)),
            forall|j: int, k: int|
                #![trigger uncached@[j], all[k]]
                0 <= j < uncached@.len() && i <= k < all.len() ==> text_below(
                    uncached@[j]@,
                    all[k],
                ),
            texts(uncached@).to_set() == all.take(i as int).to_set().difference(cached@.dom()),
            all.take(i as int).to_set().intersect(cached@.dom()).finite(),
            hits == all.take(i as int).to_set().intersect(cached@.dom()).len(),
        decreases urlmd5s@.len() - i,
    {
        let ghost before = uncached@;
        let ghost seen = all.take(i as int).to_set();
        let ghost u = all[i as int];
        proof {
            assert(all.take(i + 1) =~= all.take(i as int).push(u));
            all.take(i as int).lemma_push_to_set_commute(u);
            assert(!seen.contains(u)) by {
                if seen.contains(u) {
                    let j = choose|j: int|
                        0 <= j < all.take(i as int).len() && all.take(i as int)[j] == u;
                    assert(text_below(all[j], all[i as int]));
                    lemma_text_irreflexive(u);
                }
            }
        }
        if cached.contains_key(urlmd5s[i].as_str()) {
            proof {
                assert(seen.insert(u).intersect(cached@.dom()) =~= seen.intersect(
                    cached@.dom(),
                ).insert(u));
                assert(seen.insert(u).difference(cached@.dom()) =~= seen.difference(
                    cached@.dom(),
                ));
            }
            hits = hits + 1;
        } else {
            uncached.push(urlmd5s[i].clone());
            proof {
                assert(texts(uncached@) =~= texts(before).push(u));
                texts(before).lemma_push_to_set_commute(u);
                assert(seen.insert(u).intersect(cached@.dom()) =~= seen.intersect(cached@.dom()));
                assert(seen.insert(u).difference(cached@.dom()) =~= seen.difference(
                    cached@.dom(),
                ).insert(u));
                assert forall|j: int, k: int|
                    #![trigger texts(uncached@)[j], texts(uncached@)[k]]
                    0 <= j < k < texts(uncached@).len() implies text_below(
                    texts(uncached@)[j],
                    texts(uncached@)[k],
                ) by {
                    assert(uncached@[j] == before[j]);
                    if k < before.len() {
                        assert(uncached@[k] == before[k]);
                        assert(texts(before)[j] == before[j]@);
                        assert(texts(before)[k] == before[k]@);
                    } else {
                        assert(text_below(before[j]@, all[i as int]));
                    }
                }
                assert forall|j: int, k: int|
                    #![trigger uncached@[j], all[k]]
                    0 <= j < uncached@.len() && i + 1 <= k < all.len() implies text_below(
                    uncached@[j]@,
                    all[k],
                ) by {
                    if j < before.len() {
                        assert(uncached@[j] == before[j]);
                    }
                }
            }
        }
        i = i + 1;
    }
    assert(all.take(i as int) =~= all);
    (uncached, hits)
}

impl<C> Provider<C> {
    /// Begins to score candidates: looks up those whose counts are not cached.
    pub fn score<'a>(&self, request_id: &'a str, candidates: &'a [Candidate]) -> (step: ScoreStep<
        'a,
    >)
        ensures
            begins(self@, request_id@, candidates@, step),
    {
        if !self.prepared {
            return ScoreStep::Respond(
                refuse(
                    "NOT_PREPARED",
                    "provider must receive prepare before score".to_owned(),
                    false,
                ),
            );
        }
        if self.connection.is_none() {
            return ScoreStep::Respond(
                refuse(
                    "SNAPSHOT_UNAVAILABLE",
                    "provider has no active SQLite snapshot".to_owned(),
                    true,
                ),
            );
        }
        let urlmd5s = requested_urlmd5s(candidates);
        let (uncached, cache_hits) = part_uncached(&urlmd5s, &self.cached_counts);
        proof {
            lemma_sorted(
                texts(uncached@),
                requested(candidates@).difference(self.cached_counts@.dom()),
            );
        }
        let lookup = query_counts(uncached.as_slice());
        after_lookup(ScorePlan { request_id, candidates, uncached, cache_hits }, lookup)
    }
}

impl<'a> ScoreFetching<'a> {
    /// Takes the answer to a query.
    pub fn resume(self, answer: Result<Vec<CountRow>, QueryFailure>) -> (step: ScoreStep<'a>)
        ensures
            follows_lookup(
                self.plan,
                match answer {
                    Ok(rows) => lookup_step(
                        query_views(self.lookup.later@),
                        absorb(self.lookup.counts@, row_views(rows@)),
                    ),
                    Err(failure) => CountStepView::Failed(query_failure_message(failure)),
                },
                step,
            ),
    {
        let lookup = self.lookup.resume(answer);
        after_lookup(self.plan, lookup)
    }
}

/// The counts at hand once those that a request missed are remembered, an unknown
/// one as zero.
pub open spec fn remember(
    cached: Map<Seq<char>, u64>,
    missed: Seq<Seq<char>>,
    fetched: Map<Seq<char>, u64>,
) -> Map<Seq<char>, u64> {
    Map::new(
        |urlmd5: Seq<char>| cached.contains_key(urlmd5) || missed.contains(urlmd5),
        |urlmd5: Seq<char>|
            if missed.contains(urlmd5) {
                count_or_zero(fetched, urlmd5)
            } else {
                cached[urlmd5]
            },
    )
}

/// The plays that a provider knows of a candidate: none where its count is unknown.
pub open spec fn known_plays<C>(provider: ProviderView<C>, candidate: Candidate) -> u64 {
    match candidate.lms_urlmd5 {
        Some(urlmd5) => count_or_zero(provider.cached_counts, urlmd5@),
        None => 0,
    }
}

/// The signal for a candidate that was played `count` times.
pub open spec fn signal_at<C>(
    provider: ProviderView<C>,
    candidate_id: Seq<char>,
    count: u64,
) -> SignalView {
    SignalView {
        candidate_id,
        channel: CHANNEL@,
        scope: GuidanceScope::Global,
        percentile: percentile_of(provider.distribution, provider.eligible_count, count),
        confidence: 1,
        observed_at: None,
    }
}

/// The signal for a candidate.
pub open spec fn signal_for<C>(provider: ProviderView<C>, candidate: Candidate) -> SignalView {
    signal_at(provider, candidate.candidate_id@, known_plays(provider, candidate))
}

/// One signal for each candidate, in their order.
pub open spec fn signals_for<C>(
    provider: ProviderView<C>,
    candidates: Seq<Candidate>,
) -> Seq<SignalView> {
    Seq::new(candidates.len(), |i: int| signal_for(provider, candidates[i]))
}

/// The counters of a provider can take in a score request.
pub open spec fn has_room<C>(provider: ProviderView<C>, plan: ScorePlan) -> bool {
    &&& provider.score_batches < u64::MAX
    &&& provider.score_query_batches + batches(plan.uncached@.len()) <= u64::MAX
    &&& provider.score_cache_hits + plan.cache_hits <= u64::MAX
}

/// The provider after a score request.
pub open spec fn after_score<C>(
    provider: ProviderView<C>,
    ready: ScoreReady,
) -> ProviderView<C> {
    ProviderView {
        cached_counts: remember(
            provider.cached_counts,
            texts(ready.plan.uncached@),
            ready.fetched@,
        ),
        score_batches: (provider.score_batches + 1) as u64,
        score_query_batches: (provider.score_query_batches + batches(
            ready.plan.uncached@.len(),
        )) as u64,
        score_cache_hits: (provider.score_cache_hits + ready.plan.cache_hits) as u64,
        ..provider
    }
}

/// The answer to a score request, given by a provider that has taken it in.
pub open spec fn scores_response<C>(
    provider: ProviderView<C>,
    plan: ScorePlan,
    elapsed_ms: u128,
) -> ResponseView {
    ResponseView::Scores {
        provider_id: PROVIDER_ID@,
        request_id: plan.request_id@,
        signals: signals_for(provider, plan.candidates@),
        diagnostics: DiagnosticsView {
            state: Some("fresh"@),
            request_count: 1,
            failure_count: 0,
            details: Some(
                Details::Score(
                    ScoreDetails {
                        eligible_candidates: provider.eligible_count,
                        known_counts: provider.known_count,
                        zero_counts: provider.zero_count,
                        distribution_size: provider.distribution.len() as usize,
                        query_batches: batches(plan.uncached@.len()) as u64,
                        cache_hits: plan.cache_hits,
                        total_score_batches: provider.score_batches,
                        total_score_query_batches: provider.score_query_batches,
                        total_cache_hits: provider.score_cache_hits,
                        elapsed_ms,
                    },
                ),
            ),
        },
    }
}

/// Adds what was fetched for the missed digests to the cache.
fn cache_missed(
    cached: &mut StringHashMap<u64>,
    missed: &Vec<String>,
    fetched: &StringHashMap<u64>,
)
    ensures
        final(cached)@ == remember(old(cached)@, texts(missed@), fetched@),
{
    let ghost before = cached@;
    let ghost all = texts(missed@);
    let mut i: usize = 0;
    assert(cached@ =~= remember(before, all.take(0), fetched@));
    while i < missed.len()
        invariant
            i <= missed@.len(),
            all == texts(missed@),
            cached@ == remember(before, all.take(i as int), fetched@),
        decreases missed@.len() - i,
    {
        cached.insert(missed[i].clone(), known_or_zero(fetched, missed[i].as_str()));
        proof {
            let u = all[i as int];
            assert(all.take(i + 1) =~= all.take(i as int).push(u));
            let now = remember(before, all.take(i as int), fetched@);
            let next = remember(before, all.take(i + 1), fetched@);
            assert(cached@ == now.insert(u, count_or_zero(fetched@, u)));
            assert forall|x: Seq<char>|
                #![trigger next.contains_key(x)]
                #![trigger cached@.contains_key(x)]
                {
                    &&& next.contains_key(x) <==> cached@.contains_key(x)
                    &&& next.contains_key(x) ==> next[x] == cached@[x]
                } by {
                all.take(i as int).lemma_push_to_set_commute(u);
                assert(all.take(i + 1).to_set().contains(x) == all.take(i + 1).contains(x));
                assert(all.take(i as int).to_set().contains(x) == all.take(i as int).contains(x));
            }
            assert(cached@ =~= next);
        }
        i = i + 1;
    }
    assert(all.take(i as int) =~= all);
}

impl<C> Provider<C> {
    /// One signal for each candidate.
    fn signals(&self, candidates: &[Candidate]) -> (signals: Vec<GuidanceSignal>)
        requires
            self@.wf(),
        ensures
            signal_views(signals@) == signals_for(self@, candidates@),
    {
        let mut signals: Vec<GuidanceSignal> = Vec::new();
        let mut i: usize = 0;
        while i < candidates.len()
            invariant
                i <= candidates@.len(),
                self@.wf(),
                signal_views(signals@) =~= signals_for(self@, candidates@).take(i as int),
            decreases candidates@.len() - i,
        {
            let ghost before = signals@;
            let count = match &candidates[i].lms_urlmd5 {
                Some(urlmd5) => known_or_zero(&self.cached_counts, urlmd5.as_str()),
                None => 0,
            };
            proof {
                lemma_below_monotone(self.distribution@, count as nat, (u64::MAX + 1) as nat);
            }
            let signal = GuidanceSignal {
                candidate_id: candidates[i].candidate_id.clone(),
                channel: CHANNEL.to_owned(),
                scope: GuidanceScope::Global,
                percentile: self.percentile(count),
                confidence: 1,
                observed_at: None,
            };
            signals.push(signal);
            assert(signal_views(signals@) =~= signal_views(before).push(signal@));
            i = i + 1;
        }
        signals
    }

    /// Whether the counters of the provider can take in a score request.
    pub fn can_record(&self, ready: &ScoreReady) -> (can: bool)
        ensures
            can == has_room(self@, ready.plan),
    {
        self.score_batches < u64::MAX && batch_count(ready.plan.uncached.len()) <= u64::MAX
            - self.score_query_batches && ready.plan.cache_hits <= u64::MAX - self.score_cache_hits
    }

    /// Remembers the counts that a score request missed and answers it; it took
    /// `elapsed_ms`.
    pub fn finish_score(&mut self, ready: ScoreReady, elapsed_ms: u128) -> (response:
        GuidanceResponse)
        requires
            old(self)@.wf(),
            old(self).prepared,
            has_room(old(self)@, ready.plan),
        ensures
            final(self)@ == after_score(old(self)@, ready),
            final(self)@.wf(),
            response@ == scores_response(final(self)@, ready.plan, elapsed_ms),
    {
        let plan = ready.plan;
        cache_missed(&mut self.cached_counts, &plan.uncached, &ready.fetched);
        let signals = self.signals(plan.candidates);
        let query_batches = batch_count(plan.uncached.len());
        self.score_batches = self.score_batches + 1;
        self.score_query_batches = self.score_query_batches + query_batches;
        self.score_cache_hits = self.score_cache_hits + plan.cache_hits;
        assert(signal_views(signals@) =~= signals_for(self@, plan.candidates@));
        GuidanceResponse::Scores {
            provider_id: PROVIDER_ID.to_owned(),
            request_id: plan.request_id.to_owned(),
            signals,
            diagnostics: Diagnostics {
                state: Some("fresh".to_owned()),
                request_count: 1,
                failure_count: 0,
                details: Some(
                    Details::Score(
                        ScoreDetails {
                            eligible_candidates: self.eligible_count,
                            known_counts: self.known_count,
                            zero_counts: self.zero_count,
                            distribution_size: self.distribution.len(),
                            query_batches,
                            cache_hits: plan.cache_hits,
                            total_score_batches: self.score_batches,
                            total_score_query_batches: self.score_query_batches,
                            total_cache_hits: self.score_cache_hits,
                            elapsed_ms,
                        },
                    ),
                ),
            },
        }
    }
}

} // verus!
