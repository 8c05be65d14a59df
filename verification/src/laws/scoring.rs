//! Scores as ranks in a snapshot of the database, over any number of requests.

use vstd::prelude::*;

use crate::counts::{lookup_start, plays, queries_for, sorted, CountStepView};
use crate::laws::lookup::{law_sets_have_one_order, recorded};
use crate::laws::ranking::law_guidance_is_bounded;
use crate::population::{eligible_plays, usable, usable_urlmd5s};
use crate::prepare::{follows_lookup, PrepareStep, SnapshotSource};
use crate::protocol::{optional_text, refusal, Candidate, CandidateIdentity, GuidanceScope};
use crate::provider::{prepared_diagnostics, ProviderView};
use crate::ranking::{histogram, percentile_of};
use crate::score::{
    after_score, known_plays, requested, score_refusal, scores_response, signal_at, signal_for,
    signals_for, ScorePlan, ScoreReady,
};
use crate::text::{blank, texts};

verus! {

/// The plays that a table records for a digest: none where it has no row.
pub open spec fn plays_in(table: Map<Seq<char>, Option<i64>>, urlmd5: Seq<char>) -> u64 {
    if table.contains_key(urlmd5) {
        plays(table[urlmd5])
    } else {
        0
    }
}

/// The plays that a table records for each eligible candidate.
pub open spec fn population_in(
    table: Map<Seq<char>, Option<i64>>,
    candidates: Seq<CandidateIdentity>,
) -> Seq<u64> {
    Seq::new(
        candidates.len(),
        |i: int|
            match usable(optional_text(candidates[i].lms_urlmd5)) {
                Some(urlmd5) => plays_in(table, urlmd5),
                None => 0,
            },
    )
}

/// Every count that is remembered is the one that the table records.
pub open spec fn agrees(
    cached: Map<Seq<char>, u64>,
    table: Map<Seq<char>, Option<i64>>,
) -> bool {
    forall|urlmd5: Seq<char>| #[trigger]
        cached.contains_key(urlmd5) ==> cached[urlmd5] == plays_in(table, urlmd5)
}

/// The usable digest of a candidate is among those of the list.
pub proof fn lemma_usable_listed(candidates: Seq<CandidateIdentity>, i: int)
    requires
        0 <= i < candidates.len(),
    ensures
        usable(optional_text(candidates[i].lms_urlmd5)) matches Some(urlmd5)
            ==> usable_urlmd5s(candidates).contains(urlmd5),
    decreases candidates.len(),
{
    let shorter = candidates.drop_last();
    let earlier = usable_urlmd5s(shorter);
    if i < shorter.len() {
        lemma_usable_listed(shorter, i);
        assert(shorter[i] == candidates[i]);
        if let Some(urlmd5) = usable(optional_text(candidates[i].lms_urlmd5)) {
            let k = choose|k: int| 0 <= k < earlier.len() && earlier[k] == urlmd5;
            assert(usable_urlmd5s(candidates)[k] == urlmd5);
        }
    } else {
        if let Some(urlmd5) = usable(optional_text(candidates[i].lms_urlmd5)) {
            assert(usable_urlmd5s(candidates)[earlier.len() as int] == urlmd5);
        }
    }
}

/// The provider shows the snapshot `table` of the `eligible` candidates: it ranks
/// among their plays, and what it remembers are plays of usable digests.
pub open spec fn shows<C>(
    provider: ProviderView<C>,
    eligible: Seq<CandidateIdentity>,
    table: Map<Seq<char>, Option<i64>>,
) -> bool {
    &&& provider.distribution == histogram(population_in(table, eligible))
    &&& provider.eligible_count == eligible.len()
    &&& agrees(provider.cached_counts, table)
    &&& forall|urlmd5: Seq<char>| #[trigger]
        provider.cached_counts.contains_key(urlmd5) ==> !blank(urlmd5)
}

/// A preparation whose lookup was answered from a table installs a provider that
/// shows that table; a candidate that the table does not know counts as never played.
pub proof fn law_prepared_providers_show_the_table<C>(
    source: SnapshotSource<C>,
    table: Map<Seq<char>, Option<i64>>,
    step: PrepareStep<C>,
)
    requires
        follows_lookup(
            source,
            CountStepView::Done(recorded(table, usable_urlmd5s(source.candidates@).to_set())),
            step,
        ),
    ensures
        step matches PrepareStep::Ready(snapshot) && shows(
            ProviderView::<C>::cleared().with_snapshot(snapshot),
            source.candidates@,
            table,
        ),
{
    let candidates = source.candidates@;
    let urlmd5s = usable_urlmd5s(candidates);
    let counts = recorded(table, urlmd5s.to_set());
    assert forall|i: int| 0 <= i < candidates.len() implies eligible_plays(candidates, counts)[i]
        == #[trigger] population_in(table, candidates)[i] by {
        lemma_usable_listed(candidates, i);
        if let Some(urlmd5) = usable(optional_text(candidates[i].lms_urlmd5)) {
            assert(urlmd5s.to_set().contains(urlmd5));
        }
    }
    assert(eligible_plays(candidates, counts) =~= population_in(table, candidates));
}

/// A preparation is determined by the candidates and the counts that were looked up.
pub proof fn law_preparation_is_determined<C>(
    source: SnapshotSource<C>,
    counts: Map<Seq<char>, u64>,
    a: PrepareStep<C>,
    b: PrepareStep<C>,
    elapsed_ms: u128,
)
    requires
        follows_lookup(source, CountStepView::Done(counts), a),
        follows_lookup(source, CountStepView::Done(counts), b),
    ensures
        a matches PrepareStep::Ready(first) && b matches PrepareStep::Ready(second)
            && ProviderView::<C>::cleared().with_snapshot(first)
            == ProviderView::<C>::cleared().with_snapshot(second) && prepared_diagnostics(
            first,
            elapsed_ms,
        ) == prepared_diagnostics(second, elapsed_ms),
{
}

/// A request names finitely many digests.
pub proof fn lemma_requested_finite(candidates: Seq<Candidate>)
    ensures
        requested(candidates).finite(),
    decreases candidates.len(),
{
    if candidates.len() == 0 {
        assert(requested(candidates) =~= Set::empty());
    } else {
        let shorter = candidates.drop_last();
        lemma_requested_finite(shorter);
        let wider = match usable(optional_text(candidates.last().lms_urlmd5)) {
            Some(urlmd5) => requested(shorter).insert(urlmd5),
            None => requested(shorter),
        };
        assert forall|urlmd5: Seq<char>| requested(candidates).contains(urlmd5) implies
            #[trigger] wider.contains(urlmd5) by {
            let i = choose|i: int|
                0 <= i < candidates.len() && usable(
                    optional_text((#[trigger] candidates[i]).lms_urlmd5),
                ) == Some(urlmd5);
            if i < shorter.len() {
                assert(shorter[i] == candidates[i]);
            }
        }
        vstd::set_lib::lemma_set_subset_finite(wider, requested(candidates));
    }
}

proof fn lemma_missed(
    plan: ScorePlan,
    request_id: Seq<char>,
    candidates: Seq<Candidate>,
    cached: Map<Seq<char>, u64>,
)
    requires
        plan.serves(request_id, candidates, cached),
    ensures
        forall|urlmd5: Seq<char>| #[trigger]
            texts(plan.uncached@).contains(urlmd5) <==> requested(candidates).contains(urlmd5)
                && !cached.contains_key(urlmd5),
{
    let missed = requested(candidates).difference(cached.dom());
    lemma_requested_finite(candidates);
    law_sets_have_one_order(missed);
    assert forall|urlmd5: Seq<char>| #[trigger]
        texts(plan.uncached@).contains(urlmd5) <==> requested(candidates).contains(urlmd5)
            && !cached.contains_key(urlmd5) by {
        assert(sorted(missed).to_set().contains(urlmd5) == sorted(missed).contains(urlmd5));
    }
}

/// A count, once remembered, stays what it is through later score requests, and so
/// does the signal that rests on it.
pub proof fn law_remembered_counts_stay<C>(
    provider: ProviderView<C>,
    ready: ScoreReady,
    request_id: Seq<char>,
    candidate: Candidate,
)
    requires
        ready.plan.serves(request_id, ready.plan.candidates@, provider.cached_counts),
        candidate.lms_urlmd5 matches Some(urlmd5) && provider.cached_counts.contains_key(urlmd5@),
    ensures
        ({
            let urlmd5 = candidate.lms_urlmd5->0@;
            let after = after_score(provider, ready);
            &&& after.cached_counts.contains_key(urlmd5)
            &&& after.cached_counts[urlmd5] == provider.cached_counts[urlmd5]
            &&& signal_for(after, candidate) == signal_for(provider, candidate)
        }),
{
    lemma_missed(ready.plan, request_id, ready.plan.candidates@, provider.cached_counts);
}

/// A provider goes on showing its snapshot through score requests whose lookups
/// are answered from it, and then remembers every count that the request needed.
pub proof fn law_scoring_keeps_showing_the_table<C>(
    provider: ProviderView<C>,
    ready: ScoreReady,
    request_id: Seq<char>,
    eligible: Seq<CandidateIdentity>,
    table: Map<Seq<char>, Option<i64>>,
)
    requires
        shows(provider, eligible, table),
        ready.plan.serves(request_id, ready.plan.candidates@, provider.cached_counts),
        ready.fetched@ == recorded(
            table,
            requested(ready.plan.candidates@).difference(provider.cached_counts.dom()),
        ),
    ensures
        shows(after_score(provider, ready), eligible, table),
        forall|urlmd5: Seq<char>| #[trigger]
            requested(ready.plan.candidates@).contains(urlmd5) ==> after_score(
                provider,
                ready,
            ).cached_counts.contains_key(urlmd5),
{
    lemma_missed(ready.plan, request_id, ready.plan.candidates@, provider.cached_counts);
    let after = after_score(provider, ready).cached_counts;
    let missed = requested(ready.plan.candidates@).difference(provider.cached_counts.dom());
    assert forall|urlmd5: Seq<char>| #[trigger] after.contains_key(urlmd5) implies after[urlmd5]
        == plays_in(table, urlmd5) && !blank(urlmd5) by {
        if texts(ready.plan.uncached@).contains(urlmd5) {
            assert(missed.contains(urlmd5));
            assert(recorded(table, missed).contains_key(urlmd5) <==> table.contains_key(urlmd5));
        } else {
            assert(provider.cached_counts.contains_key(urlmd5));
        }
    }
    assert forall|urlmd5: Seq<char>| #[trigger]
        requested(ready.plan.candidates@).contains(urlmd5) implies after.contains_key(urlmd5) by {
        assert(texts(ready.plan.uncached@).contains(urlmd5)
            || provider.cached_counts.contains_key(urlmd5));
    }
}

/// Scoring the same candidates again needs no query, and gives the same signals.
pub proof fn law_rescoring_needs_no_query<C>(
    provider: ProviderView<C>,
    ready: ScoreReady,
    request_id: Seq<char>,
    again: ScoreReady,
)
    requires
        ready.plan.serves(request_id, ready.plan.candidates@, provider.cached_counts),
        again.plan.serves(
            again.plan.request_id@,
            ready.plan.candidates@,
            after_score(provider, ready).cached_counts,
        ),
    ensures
        lookup_start(
            requested(ready.plan.candidates@).difference(
                after_score(provider, ready).cached_counts.dom(),
            ),
        ) == CountStepView::Done(Map::empty()),
        signals_for(after_score(after_score(provider, ready), again), ready.plan.candidates@)
            == signals_for(after_score(provider, ready), ready.plan.candidates@),
{
    let candidates = ready.plan.candidates@;
    let after = after_score(provider, ready);
    lemma_missed(ready.plan, request_id, candidates, provider.cached_counts);
    let missed = requested(candidates).difference(after.cached_counts.dom());
    assert(missed =~= Set::empty()) by {
        assert forall|urlmd5: Seq<char>| !missed.contains(urlmd5) by {
            if requested(candidates).contains(urlmd5) {
                assert(texts(ready.plan.uncached@).contains(urlmd5)
                    || provider.cached_counts.contains_key(urlmd5));
            }
        }
    }
    law_sets_have_one_order(missed);
    if sorted(missed).len() > 0 {
        assert(sorted(missed).to_set().contains(sorted(missed)[0]));
    }
    assert(queries_for(sorted(missed)).len() == 0);
    let later = after_score(after, again);
    assert(texts(again.plan.uncached@).len() == 0);
    assert(later.cached_counts =~= after.cached_counts);
    assert(signals_for(later, candidates) =~= signals_for(after, candidates));
}

/// The score of a candidate is the average-rank percentile, among the eligible
/// candidates, of the plays that the snapshot records for it; a candidate without a
/// usable digest scores as one that was never played.
pub proof fn law_scores_are_ranks_in_the_snapshot<C>(
    provider: ProviderView<C>,
    ready: ScoreReady,
    request_id: Seq<char>,
    eligible: Seq<CandidateIdentity>,
    table: Map<Seq<char>, Option<i64>>,
    i: int,
)
    requires
        shows(provider, eligible, table),
        ready.plan.serves(request_id, ready.plan.candidates@, provider.cached_counts),
        ready.fetched@ == recorded(
            table,
            requested(ready.plan.candidates@).difference(provider.cached_counts.dom()),
        ),
        0 <= i < ready.plan.candidates@.len(),
    ensures
        ({
            let candidate = ready.plan.candidates@[i];
            let signal = signals_for(after_score(provider, ready), ready.plan.candidates@)[i];
            &&& signal.candidate_id == candidate.candidate_id@
            &&& signal.percentile == percentile_of(
                histogram(population_in(table, eligible)),
                eligible.len() as u64,
                match usable(optional_text(candidate.lms_urlmd5)) {
                    Some(urlmd5) => plays_in(table, urlmd5),
                    None => 0,
                },
            )
        }),
{
    law_scoring_keeps_showing_the_table(provider, ready, request_id, eligible, table);
    let candidate = ready.plan.candidates@[i];
    if let Some(urlmd5) = usable(optional_text(candidate.lms_urlmd5)) {
        assert(requested(ready.plan.candidates@).contains(urlmd5));
    }
}

/// An answer is determined by the provider, the request and what was looked up for it.
pub proof fn law_answers_are_determined<C>(
    provider: ProviderView<C>,
    request_id: Seq<char>,
    candidates: Seq<Candidate>,
    a: ScoreReady,
    b: ScoreReady,
    elapsed_ms: u128,
)
    requires
        a.plan.serves(request_id, candidates, provider.cached_counts),
        b.plan.serves(request_id, candidates, provider.cached_counts),
        a.fetched@ == b.fetched@,
    ensures
        after_score(provider, a) == after_score(provider, b),
        scores_response(after_score(provider, a), a.plan, elapsed_ms) == scores_response(
            after_score(provider, b),
            b.plan,
            elapsed_ms,
        ),
{
    assert(texts(a.plan.uncached@).len() == texts(b.plan.uncached@).len());
}

/// A candidate whose count is unknown, be it for want of a digest, scores as one
/// that was played zero times.
pub proof fn law_unknown_counts_score_as_zero<C>(provider: ProviderView<C>, candidate: Candidate)
    requires
        candidate.lms_urlmd5 matches Some(urlmd5) ==> !provider.cached_counts.contains_key(
            urlmd5@,
        ),
    ensures
        signal_for(provider, candidate) == signal_at(provider, candidate.candidate_id@, 0),
{
}

/// A digest without a row in the table is remembered as played zero times, as one
/// with a row that says so.
pub proof fn law_absent_rows_are_remembered_as_zero<C>(
    provider: ProviderView<C>,
    ready: ScoreReady,
    urlmd5: Seq<char>,
)
    requires
        texts(ready.plan.uncached@).contains(urlmd5),
        !ready.fetched@.contains_key(urlmd5) || ready.fetched@[urlmd5] == 0,
    ensures
        after_score(provider, ready).cached_counts.contains_key(urlmd5),
        after_score(provider, ready).cached_counts[urlmd5] == 0,
{
}

/// Candidates played equally often score the same, whichever requests they come in.
pub proof fn law_equal_counts_score_equally<C>(
    earlier: ProviderView<C>,
    later: ProviderView<C>,
    a: Candidate,
    b: Candidate,
)
    requires
        earlier.distribution == later.distribution,
        earlier.eligible_count == later.eligible_count,
        known_plays(earlier, a) == known_plays(later, b),
    ensures
        signal_for(earlier, a).percentile == signal_for(later, b).percentile,
{
}

/// A score request leaves the snapshot and its population as they are.
pub proof fn law_scoring_keeps_the_population<C>(provider: ProviderView<C>, ready: ScoreReady)
    ensures
        ({
            let after = after_score(provider, ready);
            &&& after.connection == provider.connection
            &&& after.distribution == provider.distribution
            &&& after.eligible_count == provider.eligible_count
            &&& after.known_count == provider.known_count
            &&& after.zero_count == provider.zero_count
            &&& after.snapshot_id == provider.snapshot_id
            &&& after.prepared == provider.prepared
        }),
{
}

/// Guidance is given for each requested candidate: every one gets a bounded global
/// signal of its own, in the order of the request.
pub proof fn law_every_candidate_is_scored<C>(
    provider: ProviderView<C>,
    candidates: Seq<Candidate>,
)
    ensures
        signals_for(provider, candidates).len() == candidates.len(),
        forall|i: int|
            #![trigger signals_for(provider, candidates)[i]]
            0 <= i < candidates.len() ==> {
                let signal = signals_for(provider, candidates)[i];
                &&& signal.candidate_id == candidates[i].candidate_id@
                &&& signal.scope == GuidanceScope::Global
                &&& signal.percentile.wf()
                &&& signal == signal_for(provider, candidates[i])
            },
{
    assert forall|i: int|
        #![trigger signals_for(provider, candidates)[i]]
        0 <= i < candidates.len() implies signals_for(provider, candidates)[i].percentile.wf() by {
        law_guidance_is_bounded(
            provider.distribution,
            provider.eligible_count,
            known_plays(provider, candidates[i]),
        );
    }
}

/// A provider scores if and only if it has been prepared: a consistent one never
/// lacks its snapshot, and one that was reset, closed or not prepared refuses.
pub proof fn law_only_prepared_providers_score<C>(provider: ProviderView<C>)
    requires
        provider.wf(),
    ensures
        score_refusal(provider) == if provider.prepared {
            None
        } else {
            Some(refusal("NOT_PREPARED"@, "provider must receive prepare before score"@, false))
        },
        !ProviderView::<C>::cleared().prepared,
{
}

} // verus!
