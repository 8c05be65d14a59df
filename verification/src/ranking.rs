//! How often each play count occurs among the eligible candidates, and the
//! average-rank percentile that a play count has among them.

use std::collections::BTreeMap;
use vstd::prelude::*;
use vstd::std_specs::iter::IteratorSpec;

verus! {

/// How many candidates have been played `count` times.
pub open spec fn frequency(distribution: Map<u64, u64>, count: int) -> nat {
    if 0 <= count <= u64::MAX && distribution.contains_key(count as u64) {
        distribution[count as u64] as nat
    } else {
        0
    }
}

/// How many candidates have been played fewer than `bound` times.
pub open spec fn below(distribution: Map<u64, u64>, bound: nat) -> nat
    decreases bound,
{
    if bound == 0 {
        0
    } else {
        below(distribution, (bound - 1) as nat) + frequency(distribution, bound - 1)
    }
}

/// How many candidates a distribution counts.
pub open spec fn total(distribution: Map<u64, u64>) -> nat {
    below(distribution, (u64::MAX + 1) as nat)
}

/// An exact percentile: `(below + tied / 2) / span`.
#[derive(Clone, Copy, Debug, PartialEq, Eq, Structural)]
pub struct Percentile {
    /// Candidates played less often.
    pub below: u64,
    /// Other candidates played equally often.
    pub tied: u64,
    /// All other candidates.
    pub span: u64,
}

impl Percentile {
    /// Twice the average rank that the candidate shares with those tied with it.
    pub open spec fn doubled_rank(self) -> int {
        2 * self.below + self.tied
    }

    /// The percentile lies between zero and one.
    pub open spec fn wf(self) -> bool {
        self.span > 0 && self.doubled_rank() <= 2 * self.span
    }

    /// The score `2 * percentile - 1`, as the numerator of a fraction over `span`.
    pub open spec fn score(self) -> int {
        self.doubled_rank() - self.span
    }
}

/// The percentile of `count` in a distribution over `eligible` candidates: zero
/// where no other candidate exists, and never above one.
pub open spec fn percentile_of(
    distribution: Map<u64, u64>,
    eligible: u64,
    count: u64,
) -> Percentile {
    let lower = below(distribution, count as nat);
    let others = frequency(distribution, count as int);
    let tied = if others == 0 { 0 } else { others - 1 };
    if eligible <= 1 {
        Percentile { below: 0, tied: 0, span: 1 }
    } else if 2 * lower + tied > 2 * (eligible - 1) {
        Percentile { below: (eligible - 1) as u64, tied: 0, span: (eligible - 1) as u64 }
    } else {
        Percentile { below: lower as u64, tied: tied as u64, span: (eligible - 1) as u64 }
    }
}

/// `below` counts no less for a higher bound.
pub proof fn lemma_below_monotone(distribution: Map<u64, u64>, a: nat, b: nat)
    requires
        a <= b,
    ensures
        below(distribution, a) <= below(distribution, b),
    decreases b - a,
{
    if a < b {
        lemma_below_monotone(distribution, a, (b - 1) as nat);
    }
}

/// `below` stays the same over a gap.
proof fn lemma_below_gap(distribution: Map<u64, u64>, a: nat, b: nat)
    requires
        a <= b,
        forall|k: u64| a <= k < b ==> !distribution.contains_key(k),
    ensures
        below(distribution, a) == below(distribution, b),
    decreases b - a,
{
    if a < b {
        lemma_below_gap(distribution, a, (b - 1) as nat);
    }
}

/// The keys of a map come out in increasing order.
proof fn lemma_keys_increase(keys: Seq<u64>)
    requires
        vstd::std_specs::btree::increasing_seq(keys),
    ensures
        forall|i: int, j: int|
            #![trigger keys[i], keys[j]]
            0 <= i < j < keys.len() ==> keys[i] < keys[j],
{
    broadcast use vstd::std_specs::btree::group_btree_axioms;

    assert(vstd::laws_cmp::obeys_cmp::<u64>());
    assert forall|i: int, j: int| #![trigger keys[i], keys[j]] 0 <= i < j < keys.len() implies keys[i]
        < keys[j] by {
        assert(vstd::std_specs::cmp::OrdSpec::cmp_spec(&keys[i], &keys[j]) is Less);
    }
}

/// The entries of a distribution, by increasing count.
spec fn entries_of(distribution: Map<u64, u64>, entries: Seq<(&u64, &u64)>) -> bool {
    &&& forall|i: int, j: int|
        #![trigger entries[i], entries[j]]
        0 <= i < j < entries.len() ==> *entries[i].0 < *entries[j].0
    &&& forall|i: int|
        #![trigger entries[i]]
        0 <= i < entries.len() ==> distribution.contains_key(*entries[i].0)
            && distribution[*entries[i].0] == *entries[i].1
    &&& forall|k: u64| #[trigger]
        distribution.contains_key(k) ==> exists|i: int|
            0 <= i < entries.len() && *(#[trigger] entries[i]).0 == k
}

/// Sums the frequencies of the counts below `bound`.
pub fn count_below(distribution: &BTreeMap<u64, u64>, bound: u64) -> (lower: u64)
    requires
        below(distribution@, bound as nat) <= u64::MAX,
    ensures
        lower == below(distribution@, bound as nat),
{
    broadcast use vstd::std_specs::btree::group_btree_axioms;

    let entries = distribution.iter();
    let ghost pairs = entries.remaining();
    proof {
        let keys = pairs.map_values(|kv: (&u64, &u64)| *kv.0);
        lemma_keys_increase(keys);
        assert forall|i: int, j: int|
            #![trigger pairs[i], pairs[j]]
            0 <= i < j < pairs.len() implies *pairs[i].0 < *pairs[j].0 by {
            assert(keys[i] == *pairs[i].0);
            assert(keys[j] == *pairs[j].0);
        }
        assert forall|i: int| #![trigger pairs[i]] 0 <= i < pairs.len() implies distribution@.contains_key(
            *pairs[i].0,
        ) && distribution@[*pairs[i].0] == *pairs[i].1 by {
            assert(distribution@.contains_key(*pairs[i].0));
        }
        assert forall|k: u64| #[trigger] distribution@.contains_key(k) implies exists|i: int|
            0 <= i < pairs.len() && *(#[trigger] pairs[i]).0 == k by {
            assert(pairs.contains((&k, &distribution@[k])));
            let i = choose|i: int| 0 <= i < pairs.len() && pairs[i] == (&k, &distribution@[k]);
            assert(*pairs[i].0 == k);
        }
        assert(entries_of(distribution@, pairs));
    }
    let mut lower: u64 = 0;
    let ghost mut seen: nat = 0;
    for entry in it: entries
        invariant
            it.seq() == pairs,
            entries_of(distribution@, pairs),
            below(distribution@, bound as nat) <= u64::MAX,
            lower == below(distribution@, seen),
            seen == if it.index() == 0 { 0nat } else { (*pairs[it.index() - 1].0 + 1) as nat },
            seen <= bound,
    {
        let (count, frequency) = entry;
        proof {
            let at = it.index() as int;
            assert(pairs[at] == (count, frequency));
            assert(seen <= *count) by {
                if at > 0 {
                    assert(*pairs[at - 1].0 < *pairs[at].0);
                }
            }
            assert forall|k: u64| seen <= k < *count implies !distribution@.contains_key(k) by {
                if distribution@.contains_key(k) {
                    let i = choose|i: int| 0 <= i < pairs.len() && *(#[trigger] pairs[i]).0 == k;
                    if i < at {
                        assert(i == at - 1 || *pairs[i].0 < *pairs[at - 1].0);
                    } else {
                        assert(i == at || *pairs[at].0 < *pairs[i].0);
                    }
                }
            }
            if *count >= bound {
                lemma_below_gap(distribution@, seen, bound as nat);
            } else {
                lemma_below_gap(distribution@, seen, *count as nat);
                lemma_below_monotone(distribution@, (*count + 1) as nat, bound as nat);
            }
        }
        if *count >= bound {
            return lower;
        }
        lower = lower + *frequency;
        proof {
            seen = (*count + 1) as nat;
        }
    }
    proof {
        assert forall|k: u64| seen <= k < bound implies !distribution@.contains_key(k) by {
            if distribution@.contains_key(k) {
                let i = choose|i: int| 0 <= i < pairs.len() && *(#[trigger] pairs[i]).0 == k;
                assert(i == pairs.len() - 1 || *pairs[i].0 < *pairs[pairs.len() - 1].0);
            }
        }
        lemma_below_gap(distribution@, seen, bound as nat);
    }
    lower
}

/// How many candidates have been played `count` times.
fn frequency_of(distribution: &BTreeMap<u64, u64>, count: u64) -> (found: u64)
    ensures
        found == frequency(distribution@, count as int),
{
    broadcast use vstd::std_specs::btree::group_btree_axioms;

    match distribution.get(&count) {
        Some(frequency) => *frequency,
        None => 0,
    }
}

/// How often `count` occurs in a list of play counts.
pub open spec fn occurrences(counts: Seq<u64>, count: u64) -> nat
    decreases counts.len(),
{
    if counts.len() == 0 {
        0
    } else {
        occurrences(counts.drop_last(), count) + if counts.last() == count {
            1nat
        } else {
            0nat
        }
    }
}

/// How many play counts of a list stand below `bound`.
pub open spec fn occurrences_below(counts: Seq<u64>, bound: nat) -> nat
    decreases counts.len(),
{
    if counts.len() == 0 {
        0
    } else {
        occurrences_below(counts.drop_last(), bound) + if counts.last() < bound {
            1nat
        } else {
            0nat
        }
    }
}

/// The distribution of a list of play counts: how often each of them occurs.
pub open spec fn histogram(counts: Seq<u64>) -> Map<u64, u64> {
    Map::new(|count: u64| counts.contains(count), |count: u64| occurrences(counts, count) as u64)
}

/// A play count occurs at most as often as the list is long, and not at all where
/// the list does not hold it.
pub proof fn lemma_occurrences(counts: Seq<u64>, count: u64)
    ensures
        occurrences(counts, count) <= counts.len(),
        occurrences(counts, count) > 0 <==> counts.contains(count),
    decreases counts.len(),
{
    if counts.len() > 0 {
        let shorter = counts.drop_last();
        lemma_occurrences(shorter, count);
        if shorter.contains(count) {
            let i = choose|i: int| 0 <= i < shorter.len() && shorter[i] == count;
            assert(counts[i] == count);
        }
        if counts.contains(count) && counts.last() != count {
            let i = choose|i: int| 0 <= i < counts.len() && counts[i] == count;
            assert(shorter[i] == count);
        }
        if counts.last() == count {
            assert(counts[counts.len() - 1] == count);
        }
    }
}

proof fn lemma_occurrences_below_step(counts: Seq<u64>, count: u64)
    ensures
        occurrences_below(counts, (count + 1) as nat) == occurrences_below(counts, count as nat)
            + occurrences(counts, count),
    decreases counts.len(),
{
    if counts.len() > 0 {
        lemma_occurrences_below_step(counts.drop_last(), count);
    }
}

proof fn lemma_occurrences_below_bounds(counts: Seq<u64>, bound: nat)
    ensures
        bound == 0 ==> occurrences_below(counts, bound) == 0,
        bound > u64::MAX ==> occurrences_below(counts, bound) == counts.len(),
    decreases counts.len(),
{
    if counts.len() > 0 {
        lemma_occurrences_below_bounds(counts.drop_last(), bound);
    }
}

/// The frequencies of a histogram are the numbers of occurrences.
pub proof fn lemma_histogram_frequency(counts: Seq<u64>, count: u64)
    requires
        counts.len() <= u64::MAX,
    ensures
        frequency(histogram(counts), count as int) == occurrences(counts, count),
{
    lemma_occurrences(counts, count);
}

/// What stands below a bound in a histogram is what stands below it in the list.
pub proof fn lemma_histogram_below(counts: Seq<u64>, bound: nat)
    requires
        counts.len() <= u64::MAX,
        bound <= u64::MAX + 1,
    ensures
        below(histogram(counts), bound) == occurrences_below(counts, bound),
    decreases bound,
{
    lemma_occurrences_below_bounds(counts, bound);
    if bound > 0 {
        let last = (bound - 1) as u64;
        lemma_histogram_below(counts, (bound - 1) as nat);
        lemma_histogram_frequency(counts, last);
        lemma_occurrences_below_step(counts, last);
    }
}

/// A histogram counts every entry of its list once.
pub proof fn lemma_histogram_total(counts: Seq<u64>)
    requires
        counts.len() <= u64::MAX,
    ensures
        total(histogram(counts)) == counts.len(),
{
    lemma_histogram_below(counts, (u64::MAX + 1) as nat);
    lemma_occurrences_below_bounds(counts, (u64::MAX + 1) as nat);
}

proof fn lemma_histogram_push(counts: Seq<u64>, count: u64)
    requires
        counts.len() < u64::MAX,
    ensures
        histogram(counts.push(count)) == histogram(counts).insert(
            count,
            (frequency(histogram(counts), count as int) + 1) as u64,
        ),
{
    let longer = counts.push(count);
    assert(longer.drop_last() =~= counts);
    lemma_histogram_frequency(counts, count);
    assert forall|c: u64| longer.contains(c) <==> counts.contains(c) || c == count by {
        lemma_occurrences(longer, c);
        lemma_occurrences(counts, c);
    }
    assert(histogram(longer) =~= histogram(counts).insert(
        count,
        (frequency(histogram(counts), count as int) + 1) as u64,
    ));
}

fn set_frequency(distribution: &mut BTreeMap<u64, u64>, count: u64, frequency: u64)
    ensures
        final(distribution)@ == old(distribution)@.insert(count, frequency),
{
    broadcast use vstd::std_specs::btree::group_btree_axioms;

    assert(vstd::laws_cmp::obeys_cmp::<u64>());
    let _ = distribution.insert(count, frequency);
}

/// Counts one more candidate with `count` plays.
pub(crate) fn record(distribution: &mut BTreeMap<u64, u64>, count: u64, counts: Ghost<Seq<u64>>)
    requires
        old(distribution)@ == histogram(counts@),
        counts@.len() < u64::MAX,
    ensures
        final(distribution)@ == histogram(counts@.push(count)),
{
    let frequency = frequency_of(distribution, count);
    proof {
        lemma_histogram_frequency(counts@, count);
        lemma_occurrences(counts@, count);
        lemma_histogram_push(counts@, count);
    }
    set_frequency(distribution, count, frequency + 1);
}

/// The percentile of `count` among the candidates of a distribution.
pub fn percentile(distribution: &BTreeMap<u64, u64>, eligible: u64, count: u64) -> (found:
    Percentile)
    requires
        eligible <= 1 || below(distribution@, count as nat) <= u64::MAX,
    ensures
        found == percentile_of(distribution@, eligible, count),
{
    if eligible <= 1 {
        return Percentile { below: 0, tied: 0, span: 1 };
    }
    let lower = count_below(distribution, count);
    let tied = frequency_of(distribution, count).saturating_sub(1);
    let span: u64 = eligible - 1;
    if 2 * (lower as u128) + (tied as u128) > 2 * (span as u128) {
        Percentile { below: span, tied: 0, span }
    } else {
        Percentile { below: lower, tied, span }
    }
}

} // verus!
