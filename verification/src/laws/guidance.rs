//! What a score request asks of the database, and what it is answered.

use vstd::prelude::*;

use crate::counts::{sorted, CountRow, CountStep, QueryFailure};
use crate::laws::lookup::law_sets_have_one_order;
use crate::laws::queries::{
    batched, failed_query, lemma_batched, lemma_lookup_begun, lemma_lookup_resumed, lookup_begun,
    lookup_resumed, read_off,
};
use crate::laws::ranking::lemma_below_and_equal;
use crate::laws::scoring::lemma_requested_finite;
use crate::laws::terms::{
    digest_of, equal_to, lemma_digest_of, lemma_equal_to, lemma_less_than, lemma_listed, lemma_precedes,
    lemma_tallied, less_than, listed, plays_of_record, precedes, ranks, refuses, stored_plays,
    tallied, written,
};
use crate::protocol::{
    signal_views, Candidate, CandidateIdentity, Details, Diagnostics, GuidanceResponse,
    GuidanceSignal,
};
use crate::provider::Provider;
use crate::ranking::{lemma_histogram_below, lemma_histogram_frequency, percentile_of, Percentile};
use crate::score::{
    has_room, requested, signals_for, ScoreFetching, ScorePlan, ScoreReady, ScoreStep,
};
use crate::text::texts;

verus! {

proof fn lemma_ranks(distribution: Map<u64, u64>, plays: Seq<u64>, count: u64)
    requires
        tallied(distribution, plays),
        plays.len() <= u64::MAX,
    ensures
        ranks(percentile_of(distribution, plays.len() as u64, count), plays, count),
{
    lemma_tallied(distribution, plays);
    lemma_histogram_below(plays, count as nat);
    lemma_histogram_frequency(plays, count);
    lemma_below_and_equal(plays, count);
    lemma_equal_to(plays, count);
    lemma_less_than(plays, count);
}

/// A provider that counts a population ranks any play count among it by average rank.
pub proof fn law_providers_rank_among_their_population<C>(
    provider: Provider<C>,
    plays: Seq<u64>,
    count: u64,
    percentile: Percentile,
)
    requires
        call_ensures(Provider::<C>::percentile, (&provider, count), percentile),
        tallied(provider.distribution@, plays),
        provider.eligible_count == plays.len(),
    ensures
        ranks(percentile, plays, count),
{
    lemma_ranks(provider.distribution@, plays, count);
}

/// Ranking in a distribution is ranking among the plays that it tallies.
pub proof fn law_distributions_rank_what_they_tally(
    distribution: std::collections::BTreeMap<u64, u64>,
    plays: Seq<u64>,
    count: u64,
    percentile: Percentile,
)
    requires
        call_ensures(
            crate::ranking::percentile,
            (&distribution, plays.len() as u64, count),
            percentile,
        ),
        tallied(distribution@, plays),
        plays.len() <= u64::MAX,
    ensures
        ranks(percentile, plays, count),
{
    lemma_ranks(distribution@, plays, count);
}

/// Out of any number of eligible candidates, a play count gets twice its average rank
/// over twice the number of the others, and never more than all of it.
pub proof fn law_ranks_are_out_of_all_others(
    distribution: std::collections::BTreeMap<u64, u64>,
    plays: Seq<u64>,
    eligible: u64,
    count: u64,
    percentile: Percentile,
)
    requires
        call_ensures(crate::ranking::percentile, (&distribution, eligible, count), percentile),
        tallied(distribution@, plays),
        plays.len() <= u64::MAX,
    ensures
        eligible <= 1 ==> percentile.below == 0 && percentile.tied == 0 && percentile.span == 1,
        eligible > 1 ==> percentile.span == eligible - 1,
        eligible > 1 ==> ({
            let equal = equal_to(plays, count);
            let doubled = 2 * less_than(plays, count) + if equal == 0 {
                0
            } else {
                equal - 1
            };
            2 * percentile.below + percentile.tied == if doubled < 2 * (eligible - 1) {
                doubled
            } else {
                2 * (eligible - 1)
            }
        }),
{
    lemma_tallied(distribution@, plays);
    lemma_histogram_below(plays, count as nat);
    lemma_histogram_frequency(plays, count);
    lemma_below_and_equal(plays, count);
    lemma_equal_to(plays, count);
    lemma_less_than(plays, count);
}

/// What stands below a bound in a distribution is how many of the plays are less.
pub proof fn law_distributions_count_what_is_less(
    distribution: std::collections::BTreeMap<u64, u64>,
    plays: Seq<u64>,
    bound: u64,
    lower: u64,
)
    requires
        call_ensures(crate::ranking::count_below, (&distribution, bound), lower),
        tallied(distribution@, plays),
        plays.len() <= u64::MAX,
    ensures
        lower == less_than(plays, bound),
{
    lemma_tallied(distribution@, plays);
    lemma_histogram_below(plays, bound as nat);
    lemma_less_than(plays, bound);
}

/// Some candidate is looked up by `urlmd5`.
pub open spec fn asked(candidates: Seq<Candidate>, urlmd5: Seq<char>) -> bool {
    exists|i: int|
        0 <= i < candidates.len() && digest_of((#[trigger] candidates[i]).lms_urlmd5) == Some(
            urlmd5,
        )
}

/// The digests that a request has to look up: those of its candidates that are not
/// remembered.
pub open spec fn missing<C>(provider: Provider<C>, candidates: Seq<Candidate>) -> Set<Seq<char>> {
    Set::new(
        |urlmd5: Seq<char>|
            asked(candidates, urlmd5) && !provider.cached_counts@.contains_key(urlmd5),
    )
}

/// The digests of a request that are remembered.
pub open spec fn remembered<C>(
    provider: Provider<C>,
    candidates: Seq<Candidate>,
) -> Set<Seq<char>> {
    Set::new(
        |urlmd5: Seq<char>|
            asked(candidates, urlmd5) && provider.cached_counts@.contains_key(urlmd5),
    )
}

/// A plan is for this request: it keeps the request, lists the digests to look up in
/// byte order, and counts those that are remembered.
pub open spec fn planned<C>(
    plan: ScorePlan,
    provider: Provider<C>,
    request_id: Seq<char>,
    candidates: Seq<Candidate>,
) -> bool {
    &&& plan.request_id@ == request_id
    &&& plan.candidates@ == candidates
    &&& forall|urlmd5: Seq<char>| #[trigger]
        listed(plan.uncached@, urlmd5) == missing(provider, candidates).contains(urlmd5)
    &&& forall|i: int, j: int|
        #![trigger plan.uncached@[i], plan.uncached@[j]]
        0 <= i < j < plan.uncached@.len() ==> precedes(plan.uncached@[i]@, plan.uncached@[j]@)
    &&& plan.cache_hits == remembered(provider, candidates).len()
}

/// A score request has begun: it is refused without a snapshot, and looks up what is
/// missing otherwise.
pub open spec fn score_begun<C>(
    provider: Provider<C>,
    request_id: Seq<char>,
    candidates: Seq<Candidate>,
    step: ScoreStep,
) -> bool {
    if !provider.prepared {
        step matches ScoreStep::Respond(response) && refuses(
            response,
            "NOT_PREPARED"@,
            "provider must receive prepare before score"@,
            false,
        )
    } else if provider.connection is None {
        step matches ScoreStep::Respond(response) && refuses(
            response,
            "SNAPSHOT_UNAVAILABLE"@,
            "provider has no active SQLite snapshot"@,
            true,
        )
    } else {
        match step {
            ScoreStep::FetchCounts(fetching) => {
                &&& planned(fetching.plan, provider, request_id, candidates)
                &&& lookup_begun(
                    CountStep::Fetch(fetching.lookup),
                    missing(provider, candidates),
                )
            },
            ScoreStep::Ready(ready) => {
                &&& planned(ready.plan, provider, request_id, candidates)
                &&& lookup_begun(CountStep::Done(ready.fetched), missing(provider, candidates))
            },
            ScoreStep::Respond(_) => false,
        }
    }
}

proof fn lemma_asked(candidates: Seq<Candidate>, urlmd5: Seq<char>)
    ensures
        requested(candidates).contains(urlmd5) == asked(candidates, urlmd5),
{
    if requested(candidates).contains(urlmd5) {
        let i = choose|i: int|
            0 <= i < candidates.len() && crate::population::usable(
                crate::protocol::optional_text((#[trigger] candidates[i]).lms_urlmd5),
            ) == Some(urlmd5);
        lemma_digest_of(candidates[i].lms_urlmd5);
    }
    if asked(candidates, urlmd5) {
        let i = choose|i: int|
            0 <= i < candidates.len() && digest_of((#[trigger] candidates[i]).lms_urlmd5) == Some(
                urlmd5,
            );
        lemma_digest_of(candidates[i].lms_urlmd5);
    }
}

proof fn lemma_missing<C>(provider: Provider<C>, candidates: Seq<Candidate>)
    ensures
        missing(provider, candidates) == requested(candidates).difference(
            provider.cached_counts@.dom(),
        ),
        remembered(provider, candidates) == requested(candidates).intersect(
            provider.cached_counts@.dom(),
        ),
        missing(provider, candidates).finite(),
{
    assert forall|urlmd5: Seq<char>| requested(candidates).contains(urlmd5) == #[trigger] asked(
        candidates,
        urlmd5,
    ) by {
        lemma_asked(candidates, urlmd5);
    }
    lemma_requested_finite(candidates);
    assert(missing(provider, candidates) =~= requested(candidates).difference(
        provider.cached_counts@.dom(),
    ));
    assert(remembered(provider, candidates) =~= requested(candidates).intersect(
        provider.cached_counts@.dom(),
    ));
}

proof fn lemma_planned<C>(
    plan: ScorePlan,
    provider: Provider<C>,
    request_id: Seq<char>,
    candidates: Seq<Candidate>,
)
    requires
        plan.serves(request_id, candidates, provider.cached_counts@),
    ensures
        planned(plan, provider, request_id, candidates),
{
    let wanted = missing(provider, candidates);
    lemma_missing(provider, candidates);
    law_sets_have_one_order(wanted);
    assert forall|urlmd5: Seq<char>| #[trigger] listed(plan.uncached@, urlmd5) == wanted.contains(
        urlmd5,
    ) by {
        lemma_listed(plan.uncached@, urlmd5);
        assert(sorted(wanted).to_set().contains(urlmd5) == sorted(wanted).contains(urlmd5));
    }
    assert forall|i: int, j: int|
        #![trigger plan.uncached@[i], plan.uncached@[j]]
        0 <= i < j < plan.uncached@.len() implies precedes(
        plan.uncached@[i]@,
        plan.uncached@[j]@,
    ) by {
        assert(texts(plan.uncached@)[i] == plan.uncached@[i]@);
        assert(texts(plan.uncached@)[j] == plan.uncached@[j]@);
        lemma_precedes(plan.uncached@[i]@, plan.uncached@[j]@);
    }
}

/// How a score request begins, field by field.
pub proof fn lemma_score_begun<C>(
    provider: Provider<C>,
    request_id: Seq<char>,
    candidates: Seq<Candidate>,
    step: ScoreStep,
)
    requires
        crate::score::begins(provider@, request_id, candidates, step),
    ensures
        score_begun(provider, request_id, candidates, step),
{
    if provider.prepared && provider.connection is Some {
        lemma_missing(provider, candidates);
        lemma_planned(step.plan(), provider, request_id, candidates);
        let wanted = missing(provider, candidates);
        match step {
            ScoreStep::FetchCounts(fetching) => {
                lemma_lookup_begun(CountStep::Fetch(fetching.lookup), wanted);
            },
            ScoreStep::Ready(ready) => {
                lemma_lookup_begun(CountStep::Done(ready.fetched), wanted);
            },
            ScoreStep::Respond(_) => {},
        }
    }
}

/// A score request looks up exactly the digests of its candidates, as they are, that
/// are not remembered; without a snapshot it is refused.
pub proof fn law_score_requests_look_up_what_is_missing<C>(
    provider: Provider<C>,
    request_id: &str,
    candidates: &[Candidate],
    step: ScoreStep,
)
    requires
        call_ensures(Provider::<C>::score, (&provider, request_id, candidates), step),
    ensures
        score_begun(provider, request_id@, candidates@, step),
{
    lemma_score_begun(provider, request_id@, candidates@, step);
}

/// A score request has taken an answer: it carries on its lookup, and is refused where
/// that failed.
pub open spec fn score_resumed(
    fetching: ScoreFetching,
    answer: Result<Vec<CountRow>, QueryFailure>,
    step: ScoreStep,
) -> bool {
    match step {
        ScoreStep::FetchCounts(next) => {
            &&& next.plan == fetching.plan
            &&& lookup_resumed(fetching.lookup, answer, CountStep::Fetch(next.lookup))
        },
        ScoreStep::Ready(ready) => {
            &&& ready.plan == fetching.plan
            &&& lookup_resumed(fetching.lookup, answer, CountStep::Done(ready.fetched))
        },
        ScoreStep::Respond(response) => {
            &&& answer matches Err(failure)
            &&& refuses(response, "SCORE_LOOKUP_FAILED"@, failed_query(failure), true)
        },
    }
}

/// A score request carries its lookup on, and keeps its plan.
pub proof fn law_score_requests_carry_their_lookup_on<'a>(
    fetching: ScoreFetching<'a>,
    answer: Result<Vec<CountRow>, QueryFailure>,
    step: ScoreStep<'a>,
)
    requires
        call_ensures(ScoreFetching::resume, (fetching, answer), step),
    ensures
        score_resumed(fetching, answer, step),
{
    match step {
        ScoreStep::FetchCounts(next) => {
            lemma_lookup_resumed(fetching.lookup, answer, CountStep::Fetch(next.lookup));
        },
        ScoreStep::Ready(ready) => {
            lemma_lookup_resumed(fetching.lookup, answer, CountStep::Done(ready.fetched));
        },
        ScoreStep::Respond(_) => {},
    }
}

/// The plays that a finished request goes by for a candidate: those it fetched, where
/// it had to, or else those that were remembered; zero where neither knows it.
pub open spec fn plays_gone_by<C>(
    provider: Provider<C>,
    ready: ScoreReady,
    candidate: Candidate,
) -> u64 {
    match candidate.lms_urlmd5 {
        Some(urlmd5) => if listed(ready.plan.uncached@, urlmd5@) {
            if ready.fetched@.contains_key(urlmd5@) {
                ready.fetched@[urlmd5@]
            } else {
                0
            }
        } else if provider.cached_counts@.contains_key(urlmd5@) {
            provider.cached_counts@[urlmd5@]
        } else {
            0
        },
        None => 0,
    }
}

/// A signal is about a candidate.
pub open spec fn is_about(signal: GuidanceSignal, candidate: Candidate) -> bool {
    &&& signal.candidate_id@ == candidate.candidate_id@
    &&& signal.channel@ == "playcount"@
    &&& signal.scope is Global
    &&& signal.confidence == 1
    &&& signal.observed_at is None
}

/// A signal guides a candidate that was played `count` times: it is about the
/// candidate, and ranks the count among the eligible candidates.
pub open spec fn guides(
    signal: GuidanceSignal,
    candidate: Candidate,
    plays: Seq<u64>,
    count: u64,
) -> bool {
    is_about(signal, candidate) && ranks(signal.percentile, plays, count)
}

/// The counters of a provider have room for a request.
pub open spec fn can_count<C>(provider: Provider<C>, plan: ScorePlan) -> bool {
    &&& provider.score_batches < u64::MAX
    &&& forall|count: int| #[trigger]
        batched(plan.uncached@.len(), count) ==> provider.score_query_batches + count <= u64::MAX
    &&& provider.score_cache_hits + plan.cache_hits <= u64::MAX
}

/// When the counters have room.
pub proof fn lemma_can_count<C>(provider: Provider<C>, plan: ScorePlan)
    ensures
        can_count(provider, plan) <==> has_room(provider@, plan),
{
    let items = plan.uncached@.len();
    lemma_batched(items);
    assert forall|count: int| #[trigger] batched(items, count) implies count
        == crate::counts::batches(items) by {}
}

/// A request can be recorded exactly where the counters have room for it.
pub proof fn law_requests_are_recorded_while_there_is_room<C>(
    provider: Provider<C>,
    ready: ScoreReady,
    can: bool,
)
    requires
        call_ensures(Provider::<C>::can_record, (&provider, &ready), can),
    ensures
        can == can_count(provider, ready.plan),
{
    lemma_can_count(provider, ready.plan);
}

/// The figures that a score request is answered with.
pub open spec fn reports<C>(
    diagnostics: Diagnostics,
    before: Provider<C>,
    after: Provider<C>,
    ready: ScoreReady,
    elapsed_ms: u128,
) -> bool {
    &&& diagnostics.state matches Some(state)
    &&& state@ == "fresh"@
    &&& diagnostics.request_count == 1
    &&& diagnostics.failure_count == 0
    &&& diagnostics.details matches Some(Details::Score(details))
    &&& details.eligible_candidates == before.eligible_count
    &&& details.known_counts == before.known_count
    &&& details.zero_counts == before.zero_count
    &&& details.distribution_size == before.distribution@.len() as usize
    &&& batched(ready.plan.uncached@.len(), details.query_batches as int)
    &&& details.cache_hits == ready.plan.cache_hits
    &&& details.total_score_batches == after.score_batches
    &&& details.total_score_query_batches == after.score_query_batches
    &&& details.total_cache_hits == after.score_cache_hits
    &&& can_count(before, ready.plan) ==> {
        &&& after.score_batches == before.score_batches + 1
        &&& after.score_query_batches == before.score_query_batches + details.query_batches
        &&& after.score_cache_hits == before.score_cache_hits + ready.plan.cache_hits
    }
    &&& details.elapsed_ms == elapsed_ms
}

/// A provider has finished a request: it keeps its snapshot, and remembers besides what
/// it did the digests that were looked up, one that was not found as zero.
pub open spec fn finished<C>(before: Provider<C>, after: Provider<C>, ready: ScoreReady) -> bool {
    &&& after.connection == before.connection
    &&& after.distribution@ == before.distribution@
    &&& after.eligible_count == before.eligible_count
    &&& after.known_count == before.known_count
    &&& after.zero_count == before.zero_count
    &&& after.snapshot_id is Some == before.snapshot_id is Some
    &&& after.snapshot_id is Some ==> after.snapshot_id->0@ == before.snapshot_id->0@
    &&& after.prepared == before.prepared
    &&& forall|urlmd5: Seq<char>|
        #![trigger after.cached_counts@.contains_key(urlmd5)]
        if listed(ready.plan.uncached@, urlmd5) {
            &&& after.cached_counts@.contains_key(urlmd5)
            &&& after.cached_counts@[urlmd5] == if ready.fetched@.contains_key(urlmd5) {
                ready.fetched@[urlmd5]
            } else {
                0
            }
        } else {
            &&& after.cached_counts@.contains_key(urlmd5) == before.cached_counts@.contains_key(
                urlmd5,
            )
            &&& before.cached_counts@.contains_key(urlmd5) ==> after.cached_counts@[urlmd5]
                == before.cached_counts@[urlmd5]
        }
}

/// A finished score request is answered with one signal for each candidate that was
/// asked about, in their order and whatever the provider: it carries the candidate's
/// id, and the average-rank percentile, among the plays that the provider tallies, of
/// those of the candidate.
pub proof fn law_every_score_request_is_answered_in_full<C>(
    provider: &mut Provider<C>,
    ready: ScoreReady,
    elapsed_ms: u128,
    response: GuidanceResponse,
    plays: Seq<u64>,
)
    requires
        call_ensures(Provider::<C>::finish_score, (provider, ready, elapsed_ms), response),
    ensures
        finished(*old(provider), *final(provider), ready),
        match response {
            GuidanceResponse::Scores { provider_id, request_id, signals, diagnostics } => {
                &&& provider_id@ == "playcount-guidance"@
                &&& request_id@ == ready.plan.request_id@
                &&& signals@.len() == ready.plan.candidates@.len()
                &&& forall|i: int|
                    0 <= i < signals@.len() ==> {
                        &&& (#[trigger] signals@[i]).candidate_id@
                            == ready.plan.candidates@[i].candidate_id@
                        &&& signals@[i].channel@ == "playcount"@
                        &&& signals@[i].scope is Global
                        &&& signals@[i].confidence == 1
                        &&& signals@[i].observed_at is None
                    }
                &&& tallied(old(provider).distribution@, plays) && old(provider).eligible_count
                    == plays.len() ==> forall|i: int|
                    0 <= i < signals@.len() ==> guides(
                        #[trigger] signals@[i],
                        ready.plan.candidates@[i],
                        plays,
                        plays_gone_by(*old(provider), ready, ready.plan.candidates@[i]),
                    )
                &&& reports(diagnostics, *old(provider), *final(provider), ready, elapsed_ms)
            },
            _ => false,
        },
{
    let before = *old(provider);
    let after = *final(provider);
    lemma_batched(ready.plan.uncached@.len());
    lemma_can_count(before, ready.plan);
    assert(ready.plan.uncached.len() == ready.plan.uncached@.len());
    assert forall|urlmd5: Seq<char>| #[trigger]
        texts(ready.plan.uncached@).contains(urlmd5) == listed(ready.plan.uncached@, urlmd5) by {
        lemma_listed(ready.plan.uncached@, urlmd5);
    }
    assert(after@ == crate::score::after_score(before@, ready));
    assert(finished(before, after, ready));
    if let GuidanceResponse::Scores { provider_id, request_id, signals, diagnostics } = response {
        let candidates = ready.plan.candidates@;
        let views = signal_views(signals@);
        assert(views == signals_for(after@, candidates));
        assert(views.len() == signals@.len());
        assert forall|i: int| 0 <= i < signals@.len() implies is_about(
            #[trigger] signals@[i],
            candidates[i],
        ) && (tallied(before.distribution@, plays) && before.eligible_count == plays.len()
            ==> guides(
            signals@[i],
            candidates[i],
            plays,
            plays_gone_by(before, ready, candidates[i]),
        )) by {
            assert(views[i] == signals@[i]@);
            if tallied(before.distribution@, plays) && before.eligible_count == plays.len() {
                lemma_ranks(
                    before.distribution@,
                    plays,
                    plays_gone_by(before, ready, candidates[i]),
                );
            }
        }
    }
}

/// The plays that a table records for each eligible candidate.
pub open spec fn plays_on_record(
    table: Map<Seq<char>, Option<i64>>,
    eligible: Seq<CandidateIdentity>,
) -> Seq<u64> {
    Seq::new(eligible.len(), |i: int| plays_of_record(table, eligible[i].lms_urlmd5) as u64)
}

/// The provider reflects a table of stored counts: it tallies the plays that the table
/// records for all eligible candidates, and what it remembers of a digest is what the
/// table records for it.
pub open spec fn reflects<C>(
    provider: Provider<C>,
    eligible: Seq<CandidateIdentity>,
    table: Map<Seq<char>, Option<i64>>,
) -> bool {
    &&& tallied(provider.distribution@, plays_on_record(table, eligible))
    &&& provider.eligible_count == eligible.len()
    &&& forall|urlmd5: Seq<char>| #[trigger]
        provider.cached_counts@.contains_key(urlmd5) ==> written(urlmd5)
            && provider.cached_counts@[urlmd5] == if table.contains_key(urlmd5) {
            stored_plays(table[urlmd5])
        } else {
            0
        }
}

/// Guidance goes by the snapshot: a score request that looked up in the table what
/// was missing is answered, for each candidate in their order, with the average-rank
/// percentile among all eligible candidates of the plays that the table records for
/// it, every digest being looked up as it is; and the provider goes on reflecting the
/// table.
pub proof fn law_guidance_goes_by_the_snapshot<C>(
    provider: &mut Provider<C>,
    ready: ScoreReady,
    elapsed_ms: u128,
    response: GuidanceResponse,
    eligible: Seq<CandidateIdentity>,
    table: Map<Seq<char>, Option<i64>>,
)
    requires
        call_ensures(Provider::<C>::finish_score, (provider, ready, elapsed_ms), response),
        reflects(*old(provider), eligible, table),
        planned(
            ready.plan,
            *old(provider),
            ready.plan.request_id@,
            ready.plan.candidates@,
        ),
        read_off(ready.fetched@, missing(*old(provider), ready.plan.candidates@), table),
    ensures
        reflects(*final(provider), eligible, table),
        match response {
            GuidanceResponse::Scores { provider_id, request_id, signals, diagnostics } => {
                &&& signals@.len() == ready.plan.candidates@.len()
                &&& forall|i: int|
                    0 <= i < signals@.len() ==> guides(
                        #[trigger] signals@[i],
                        ready.plan.candidates@[i],
                        plays_on_record(table, eligible),
                        plays_of_record(table, ready.plan.candidates@[i].lms_urlmd5) as u64,
                    )
            },
            _ => false,
        },
{
    let before = *old(provider);
    let after = *final(provider);
    let candidates = ready.plan.candidates@;
    let wanted = missing(before, candidates);
    law_every_score_request_is_answered_in_full(
        provider,
        ready,
        elapsed_ms,
        response,
        plays_on_record(table, eligible),
    );
    assert(finished(before, after, ready));
    assert forall|urlmd5: Seq<char>| #[trigger] asked(candidates, urlmd5) implies written(
        urlmd5,
    ) by {}
    assert forall|urlmd5: Seq<char>| #[trigger]
        after.cached_counts@.contains_key(urlmd5) implies written(urlmd5)
        && after.cached_counts@[urlmd5] == if table.contains_key(urlmd5) {
        stored_plays(table[urlmd5])
    } else {
        0
    } by {
        if listed(ready.plan.uncached@, urlmd5) {
            assert(wanted.contains(urlmd5));
            assert(ready.fetched@.contains_key(urlmd5) <==> table.contains_key(urlmd5));
        } else {
            assert(before.cached_counts@.contains_key(urlmd5));
        }
    }
    assert forall|i: int| 0 <= i < candidates.len() implies plays_gone_by(
        before,
        ready,
        #[trigger] candidates[i],
    ) == plays_of_record(table, candidates[i].lms_urlmd5) by {
        if let Some(text) = candidates[i].lms_urlmd5 {
            let urlmd5 = text@;
            if written(urlmd5) {
                assert(digest_of(candidates[i].lms_urlmd5) == Some(urlmd5));
                assert(asked(candidates, urlmd5));
                assert(listed(ready.plan.uncached@, urlmd5) == wanted.contains(urlmd5));
                assert(ready.fetched@.contains_key(urlmd5) <==> wanted.contains(urlmd5)
                    && table.contains_key(urlmd5));
            } else {
                assert(!asked(candidates, urlmd5));
                assert(listed(ready.plan.uncached@, urlmd5) == wanted.contains(urlmd5));
                assert(!before.cached_counts@.contains_key(urlmd5));
            }
        }
    }
}

} // verus!
