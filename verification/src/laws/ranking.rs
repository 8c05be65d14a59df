//! Percentiles as average ranks in a population.

use vstd::prelude::*;

use crate::ranking::{
    below, frequency, histogram, lemma_below_monotone, lemma_histogram_below,
    lemma_histogram_frequency, lemma_occurrences, occurrences, occurrences_below, percentile_of,
    total,
};

verus! {

/// Guidance is bounded: a percentile lies between zero and one, and a score
/// between minus one and one.
pub proof fn law_guidance_is_bounded(distribution: Map<u64, u64>, eligible: u64, count: u64)
    ensures
        percentile_of(distribution, eligible, count).wf(),
        -percentile_of(distribution, eligible, count).span <= percentile_of(
            distribution,
            eligible,
            count,
        ).score() <= percentile_of(distribution, eligible, count).span,
{
}

/// A higher play count never gets a lower score.
pub proof fn law_more_plays_never_score_lower(
    distribution: Map<u64, u64>,
    eligible: u64,
    fewer: u64,
    more: u64,
)
    requires
        fewer <= more,
    ensures
        percentile_of(distribution, eligible, fewer).span == percentile_of(
            distribution,
            eligible,
            more,
        ).span,
        percentile_of(distribution, eligible, fewer).score() <= percentile_of(
            distribution,
            eligible,
            more,
        ).score(),
{
    if fewer < more {
        lemma_below_monotone(distribution, (fewer + 1) as nat, more as nat);
    }
}

/// Of two eligible candidates the one played more often gets the higher score.
pub proof fn law_more_plays_score_higher(
    distribution: Map<u64, u64>,
    eligible: u64,
    fewer: u64,
    more: u64,
)
    requires
        total(distribution) == eligible,
        fewer < more,
        frequency(distribution, fewer as int) > 0,
        frequency(distribution, more as int) > 0,
    ensures
        percentile_of(distribution, eligible, fewer).score() < percentile_of(
            distribution,
            eligible,
            more,
        ).score(),
{
    lemma_below_monotone(distribution, (fewer + 1) as nat, more as nat);
    lemma_below_monotone(distribution, (more + 1) as nat, (u64::MAX + 1) as nat);
}

/// The percentile of a play count is its average rank: the candidates played less
/// often count whole, the others played equally often count half. This holds of
/// every count that does not exceed all of the population.
pub proof fn law_percentile_is_average_rank(plays: Seq<u64>, count: u64, i: int)
    requires
        2 <= plays.len() <= u64::MAX,
        0 <= i < plays.len(),
        count <= plays[i],
    ensures
        ({
            let p = percentile_of(histogram(plays), plays.len() as u64, count);
            &&& p.below == occurrences_below(plays, count as nat)
            &&& p.tied == if occurrences(plays, count) == 0 {
                0
            } else {
                occurrences(plays, count) - 1
            }
            &&& p.span == plays.len() - 1
        }),
{
    lemma_histogram_below(plays, count as nat);
    lemma_histogram_frequency(plays, count);
    lemma_below_and_equal(plays, count);
    if occurrences(plays, count) == 0 {
        lemma_occurrences(plays, count);
        assert(plays[i] != count);
        lemma_not_all_below(plays, count, i);
    }
}

proof fn lemma_not_all_below(plays: Seq<u64>, count: u64, i: int)
    requires
        0 <= i < plays.len(),
        count <= plays[i],
    ensures
        occurrences_below(plays, count as nat) < plays.len(),
    decreases plays.len(),
{
    let shorter = plays.drop_last();
    lemma_below_and_equal(shorter, count);
    if i < shorter.len() {
        assert(shorter[i] == plays[i]);
        lemma_not_all_below(shorter, count, i);
    }
}

/// In the population ordered by play count, the candidates that share a count
/// stand exactly at the ranks that their percentile averages.
pub proof fn law_tied_candidates_share_their_ranks(ordered: Seq<u64>, count: u64, rank: int)
    requires
        forall|a: int, b: int|
            #![trigger ordered[a], ordered[b]]
            0 <= a <= b < ordered.len() ==> ordered[a] <= ordered[b],
        0 <= rank < ordered.len(),
    ensures
        ordered[rank] == count <==> occurrences_below(ordered, count as nat) <= rank
            < occurrences_below(ordered, count as nat) + occurrences(ordered, count),
    decreases ordered.len(),
{
    let shorter = ordered.drop_last();
    let last = ordered.last();
    assert forall|a: int, b: int|
        #![trigger shorter[a], shorter[b]]
        0 <= a <= b < shorter.len() implies shorter[a] <= shorter[b] by {
        assert(ordered[a] <= ordered[b]);
    }
    lemma_below_and_equal(shorter, count);
    assert forall|a: int| 0 <= a < shorter.len() implies #[trigger] shorter[a] <= last by {
        assert(ordered[a] <= ordered[ordered.len() - 1]);
    }
    if last < count {
        lemma_all_below(shorter, count);
    } else if last == count {
        lemma_none_above(shorter, count);
    }
    if rank < shorter.len() {
        assert(ordered[rank] == shorter[rank]);
        law_tied_candidates_share_their_ranks(shorter, count, rank);
    }
}

/// No play count is both less than and equal to another.
pub proof fn lemma_below_and_equal(plays: Seq<u64>, count: u64)
    ensures
        occurrences_below(plays, count as nat) + occurrences(plays, count) <= plays.len(),
    decreases plays.len(),
{
    if plays.len() > 0 {
        lemma_below_and_equal(plays.drop_last(), count);
    }
}

proof fn lemma_all_below(plays: Seq<u64>, count: u64)
    requires
        forall|i: int| 0 <= i < plays.len() ==> #[trigger] plays[i] < count,
    ensures
        occurrences_below(plays, count as nat) == plays.len(),
        occurrences(plays, count) == 0,
    decreases plays.len(),
{
    if plays.len() > 0 {
        lemma_all_below(plays.drop_last(), count);
    }
}

proof fn lemma_none_above(plays: Seq<u64>, count: u64)
    requires
        forall|i: int| 0 <= i < plays.len() ==> #[trigger] plays[i] <= count,
    ensures
        occurrences_below(plays, count as nat) + occurrences(plays, count) == plays.len(),
    decreases plays.len(),
{
    if plays.len() > 0 {
        lemma_none_above(plays.drop_last(), count);
    }
}

/// How the doubled ranks of `some` candidates among `all` add up.
spec fn doubled_ranks(some: Seq<u64>, all: Seq<u64>) -> int
    decreases some.len(),
{
    if some.len() == 0 {
        0
    } else {
        doubled_ranks(some.drop_last(), all) + 2 * occurrences_below(all, some.last() as nat)
            + occurrences(all, some.last())
    }
}

proof fn lemma_one_more(some: Seq<u64>, all: Seq<u64>, count: u64)
    ensures
        doubled_ranks(some, all.push(count)) == doubled_ranks(some, all) + 2 * (some.len()
            - occurrences_below(some, count as nat)) - occurrences(some, count),
    decreases some.len(),
{
    assert(all.push(count).drop_last() =~= all);
    if some.len() > 0 {
        lemma_one_more(some.drop_last(), all, count);
    }
}

proof fn lemma_doubled_ranks(plays: Seq<u64>)
    ensures
        doubled_ranks(plays, plays) == plays.len() * plays.len(),
    decreases plays.len(),
{
    if plays.len() > 0 {
        let shorter = plays.drop_last();
        let last = plays.last();
        let n = shorter.len() as int;
        lemma_doubled_ranks(shorter);
        lemma_one_more(shorter, shorter, last);
        assert(shorter.push(last) =~= plays);
        assert((n + 1) * (n + 1) == n * n + 2 * n + 1) by (nonlinear_arith);
    }
}

/// The scores of some candidates of a population, added up.
pub open spec fn score_sum(plays: Seq<u64>, some: Seq<u64>) -> int
    decreases some.len(),
{
    if some.len() == 0 {
        0
    } else {
        score_sum(plays, some.drop_last()) + percentile_of(
            histogram(plays),
            plays.len() as u64,
            some.last(),
        ).score()
    }
}

proof fn lemma_score_sum(plays: Seq<u64>, taken: nat)
    requires
        2 <= plays.len() <= u64::MAX,
        taken <= plays.len(),
    ensures
        score_sum(plays, plays.take(taken as int)) == doubled_ranks(
            plays.take(taken as int),
            plays,
        ) - taken * plays.len(),
    decreases taken,
{
    if taken > 0 {
        let n = plays.len() as int;
        let before = (taken - 1) as nat;
        assert(plays.take(taken as int).drop_last() =~= plays.take(before as int));
        lemma_score_sum(plays, before);
        law_percentile_is_average_rank(plays, plays[before as int], before as int);
        lemma_occurrences(plays, plays[before as int]);
        assert(plays.contains(plays[before as int]));
        assert(plays.take(taken as int).last() == plays[before as int]);
        assert(taken * n == before * n + n) by (nonlinear_arith)
            requires
                taken == before + 1,
        ;
    } else {
        assert(taken * plays.len() == 0) by (nonlinear_arith)
            requires
                taken == 0,
        ;
    }
}

/// Guidance favours no side: over all eligible candidates the scores add up to zero.
pub proof fn law_scores_balance(plays: Seq<u64>)
    requires
        2 <= plays.len() <= u64::MAX,
    ensures
        score_sum(plays, plays) == 0,
{
    assert(plays.take(plays.len() as int) =~= plays);
    lemma_score_sum(plays, plays.len());
    lemma_doubled_ranks(plays);
}

/// A play count that no candidate falls below, and at most one has, gets the lowest
/// score; one that no candidate exceeds, and at most one has, gets the highest,
/// where there are two candidates to rank. So do counts beyond those of the
/// population, which no candidate has.
pub proof fn law_extremes_get_the_bounds(plays: Seq<u64>, count: u64)
    requires
        plays.len() <= u64::MAX,
        occurrences(plays, count) <= 1,
    ensures
        ({
            let p = percentile_of(histogram(plays), plays.len() as u64, count);
            &&& (forall|j: int| 0 <= j < plays.len() ==> count <= #[trigger] plays[j])
                ==> p.doubled_rank() == 0 && p.score() == -p.span
            &&& plays.len() >= 2 && (forall|j: int|
                0 <= j < plays.len() ==> #[trigger] plays[j] <= count) ==> p.doubled_rank() == 2
                * p.span && p.score() == p.span
        }),
{
    lemma_histogram_below(plays, count as nat);
    lemma_histogram_frequency(plays, count);
    if forall|j: int| 0 <= j < plays.len() ==> count <= #[trigger] plays[j] {
        lemma_none_below(plays, count);
    }
    if forall|j: int| 0 <= j < plays.len() ==> #[trigger] plays[j] <= count {
        lemma_none_above(plays, count);
    }
}

proof fn lemma_none_below(plays: Seq<u64>, count: u64)
    requires
        forall|i: int| 0 <= i < plays.len() ==> count <= #[trigger] plays[i],
    ensures
        occurrences_below(plays, count as nat) == 0,
    decreases plays.len(),
{
    if plays.len() > 0 {
        lemma_none_below(plays.drop_last(), count);
    }
}

proof fn lemma_occurrences_in_multiset(plays: Seq<u64>, count: u64)
    ensures
        occurrences(plays, count) == plays.to_multiset().count(count),
    decreases plays.len(),
{
    broadcast use vstd::seq_lib::group_to_multiset_ensures;

    if plays.len() > 0 {
        lemma_occurrences_in_multiset(plays.drop_last(), count);
        assert(plays =~= plays.drop_last().push(plays.last()));
    }
}

/// The order in which the eligible candidates are listed is of no account: the
/// same play counts in another order have the same distribution, and so give the
/// same scores.
pub proof fn law_order_of_candidates_is_of_no_account(plays: Seq<u64>, reordered: Seq<u64>)
    requires
        plays.to_multiset() == reordered.to_multiset(),
    ensures
        histogram(plays) == histogram(reordered),
{
    assert forall|count: u64|
        #![trigger histogram(plays).contains_key(count)]
        #![trigger histogram(reordered).contains_key(count)]
        {
            &&& histogram(plays).contains_key(count) <==> histogram(reordered).contains_key(count)
            &&& histogram(plays).contains_key(count) ==> histogram(plays)[count]
                == histogram(reordered)[count]
        } by {
        lemma_occurrences_in_multiset(plays, count);
        lemma_occurrences_in_multiset(reordered, count);
        lemma_occurrences(plays, count);
        lemma_occurrences(reordered, count);
    }
    assert(histogram(plays) =~= histogram(reordered));
}

proof fn lemma_same_order(some: Seq<u64>, others: Seq<u64>, a: u64, b: u64)
    requires
        some.len() == others.len(),
        forall|j: int|
            #![trigger some[j]]
            0 <= j < some.len() ==> (some[j] < a <==> others[j] < b) && (a < some[j] <==> b
                < others[j]),
    ensures
        occurrences(some, a) == occurrences(others, b),
        occurrences_below(some, a as nat) == occurrences_below(others, b as nat),
    decreases some.len(),
{
    if some.len() > 0 {
        assert(some[some.len() - 1] == some.last());
        assert forall|j: int|
            #![trigger some.drop_last()[j]]
            0 <= j < some.len() - 1 implies (some.drop_last()[j] < a <==> others.drop_last()[j]
            < b) && (a < some.drop_last()[j] <==> b < others.drop_last()[j]) by {
            assert(some[j] == some.drop_last()[j]);
        }
        lemma_same_order(some.drop_last(), others.drop_last(), a, b);
    }
}

/// Only the order of the play counts matters, not how far they lie apart: a count
/// that stands to one population as another count stands to another has the same
/// percentile there, whether or not a candidate has it.
pub proof fn law_only_the_order_of_counts_matters(
    plays: Seq<u64>,
    others: Seq<u64>,
    a: u64,
    b: u64,
)
    requires
        plays.len() == others.len() <= u64::MAX,
        forall|j: int|
            #![trigger plays[j]]
            0 <= j < plays.len() ==> (plays[j] < a <==> others[j] < b) && (a < plays[j] <==> b
                < others[j]),
    ensures
        percentile_of(histogram(plays), plays.len() as u64, a) == percentile_of(
            histogram(others),
            others.len() as u64,
            b,
        ),
{
    lemma_histogram_below(plays, a as nat);
    lemma_histogram_frequency(plays, a);
    lemma_histogram_below(others, b as nat);
    lemma_histogram_frequency(others, b);
    lemma_same_order(plays, others, a, b);
}

/// A relabelling that keeps the counts of the population, and the count that is
/// ranked, in strictly increasing order keeps the percentile of that count.
pub proof fn law_relabelling_keeps_percentiles(
    plays: Seq<u64>,
    relabel: spec_fn(u64) -> u64,
    count: u64,
)
    requires
        plays.len() <= u64::MAX,
        forall|x: u64, y: u64|
            (x == count || plays.contains(x)) && (y == count || plays.contains(y)) && x < y
                ==> #[trigger] relabel(x) < #[trigger] relabel(y),
    ensures
        percentile_of(histogram(plays), plays.len() as u64, count) == percentile_of(
            histogram(plays.map_values(relabel)),
            plays.len() as u64,
            relabel(count),
        ),
{
    let others = plays.map_values(relabel);
    assert forall|j: int| #![trigger plays[j]] 0 <= j < plays.len() implies (plays[j] < count
        <==> others[j] < relabel(count)) && (count < plays[j] <==> relabel(count) < others[j]) by {
        assert(plays.contains(plays[j]));
        assert(others[j] == relabel(plays[j]));
    }
    law_only_the_order_of_counts_matters(plays, others, count, relabel(count));
}

} // verus!
