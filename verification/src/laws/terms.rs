//! The terms in which the outcome of an operation is told.

use vstd::prelude::*;
use vstd::utf8::encode_utf8;

use crate::order::{bytes_below, text_below};
use crate::population::{usable, Population};
use crate::protocol::{optional_text, CandidateIdentity, GuidanceResponse, Manifest, Spi};
use crate::provider::Provider;
use crate::ranking::{
    histogram, lemma_occurrences, occurrences, occurrences_below, Percentile,
};
use crate::text::{decimal, digit, texts, white_space};

verus! {

/// Text that trimming leaves something of: some character is not white space.
pub open spec fn written(text: Seq<char>) -> bool {
    exists|i: int| 0 <= i < text.len() && !white_space(#[trigger] text[i])
}

/// The digest that a candidate is looked up by: its own, unless that is absent or
/// nothing but white space.
pub open spec fn digest_of(urlmd5: Option<String>) -> Option<Seq<char>> {
    match urlmd5 {
        Some(text) => if written(text@) {
            Some(text@)
        } else {
            None
        },
        None => None,
    }
}

/// A list of strings holds `text`.
pub open spec fn listed(list: Seq<String>, text: Seq<char>) -> bool {
    exists|i: int| 0 <= i < list.len() && (#[trigger] list[i])@ == text
}

/// The provider refuses, in its own name.
pub open spec fn refuses(
    response: GuidanceResponse,
    code: Seq<char>,
    message: Seq<char>,
    retryable: bool,
) -> bool {
    match response {
        GuidanceResponse::Error { provider_id, code: c, message: m, retryable: r } => {
            &&& provider_id matches Some(id)
            &&& id@ == "playcount-guidance"@
            &&& c@ == code
            &&& m@ == message
            &&& r == retryable
        },
        _ => false,
    }
}

/// The number that decimal digits stand for.
pub open spec fn worth(digits: Seq<char>) -> int
    decreases digits.len(),
{
    if digits.len() == 0 {
        0
    } else {
        10 * worth(digits.drop_last()) + (digits.last() as int - '0' as int)
    }
}

/// `digits` is `n` in decimal: digits only, no leading zero, and worth `n`.
pub open spec fn writes(digits: Seq<char>, n: nat) -> bool {
    &&& digits.len() > 0
    &&& forall|i: int| 0 <= i < digits.len() ==> '0' <= #[trigger] digits[i] <= '9'
    &&& digits.len() > 1 ==> digits[0] != '0'
    &&& worth(digits) == n
}

/// How many of `plays` equal `count`.
pub open spec fn equal_to(plays: Seq<u64>, count: u64) -> nat {
    plays.filter(|play: u64| play == count).len()
}

/// How many of `plays` are less than `count`.
pub open spec fn less_than(plays: Seq<u64>, count: u64) -> nat {
    plays.filter(|play: u64| play < count).len()
}

/// A distribution tells of each play count in `plays` how often it is there, and of
/// no other.
pub open spec fn tallied(distribution: Map<u64, u64>, plays: Seq<u64>) -> bool {
    forall|count: u64| #[trigger]
        distribution.contains_key(count) == plays.contains(count) && (plays.contains(count)
            ==> distribution[count] == equal_to(plays, count))
}

/// The percentile of `count` among `plays` is its average rank there: those less
/// count whole, the others that are equal count half, out of all the others. Alone,
/// or without others, it is zero; above all, it is one.
pub open spec fn ranks(percentile: Percentile, plays: Seq<u64>, count: u64) -> bool {
    let others = plays.len() - 1;
    let tied = if equal_to(plays, count) == 0 {
        0
    } else {
        equal_to(plays, count) - 1
    };
    if plays.len() <= 1 {
        percentile == (Percentile { below: 0, tied: 0, span: 1 })
    } else if less_than(plays, count) == plays.len() {
        percentile.below == others && percentile.tied == 0 && percentile.span == others
    } else {
        percentile.below == less_than(plays, count) && percentile.tied == tied && percentile.span
            == others
    }
}

/// The plays that a stored count stands for: none where it is missing or negative.
pub open spec fn stored_plays(stored: Option<i64>) -> int {
    match stored {
        Some(count) if count > 0 => count as int,
        _ => 0,
    }
}

/// The plays that a table of stored counts records for a candidate with this digest:
/// none without a digest to look up, and none without a row.
pub open spec fn plays_of_record(
    table: Map<Seq<char>, Option<i64>>,
    urlmd5: Option<String>,
) -> int {
    match digest_of(urlmd5) {
        Some(digest) if table.contains_key(digest) => stored_plays(table[digest]),
        _ => 0,
    }
}

/// The plays that looked-up counts give a candidate with this digest.
pub open spec fn plays_looked_up(counts: Map<Seq<char>, u64>, urlmd5: Option<String>) -> u64 {
    match digest_of(urlmd5) {
        Some(digest) if counts.contains_key(digest) => counts[digest],
        _ => 0,
    }
}

/// A population counts the candidates as they are: every one of them, by the plays
/// that were looked up for it.
pub open spec fn counts_all(
    population: Population,
    candidates: Seq<CandidateIdentity>,
    counts: Map<Seq<char>, u64>,
) -> bool {
    let plays = Seq::new(
        candidates.len(),
        |i: int| plays_looked_up(counts, candidates[i].lms_urlmd5),
    );
    &&& tallied(population.distribution@, plays)
    &&& population.eligible_count == candidates.len()
    &&& population.zero_count == equal_to(plays, 0)
    &&& population.known_count == candidates.filter(
        |candidate: CandidateIdentity|
            digest_of(candidate.lms_urlmd5) matches Some(digest) && counts.contains_key(digest),
    ).len()
}

/// The provider has no snapshot, and nothing is left of one.
pub open spec fn empty_handed<C>(provider: Provider<C>) -> bool {
    &&& provider.connection is None
    &&& provider.distribution@ == Map::<u64, u64>::empty()
    &&& provider.eligible_count == 0
    &&& provider.known_count == 0
    &&& provider.zero_count == 0
    &&& provider.cached_counts@ == Map::<Seq<char>, u64>::empty()
    &&& provider.score_batches == 0
    &&& provider.score_query_batches == 0
    &&& provider.score_cache_hits == 0
    &&& provider.snapshot_id is None
    &&& !provider.prepared
}

/// A manifest describes the provider to the host that defines `spi`.
pub open spec fn describes(manifest: Manifest, spi: Spi) -> bool {
    &&& manifest.spi_version == spi.version
    &&& manifest.protocol@ == spi.protocol@
    &&& manifest.provider_id@ == "playcount-guidance"@
    &&& manifest.provider_version@ == "0.1.0"@
    &&& manifest.capabilities@.len() == 1
    &&& manifest.capabilities@[0] is GlobalCandidateGuidance
    &&& manifest.channels@.len() == 1
    &&& manifest.channels@[0].channel@ == "playcount"@
    &&& manifest.channels@[0].scopes@.len() == 1
    &&& manifest.channels@[0].scopes@[0] is Global
    &&& manifest.required_context@.len() == 1
    &&& manifest.required_context@[0]@ == "candidate_identity"@
    &&& manifest.configuration_schema matches Some(schema)
    &&& schema.value_type@ == "object"@
    &&& !schema.additional_properties
}

/// `a` comes before `b`: at the first byte of their encodings that differs it has the
/// lesser one, or it ends there.
pub open spec fn precedes(a: Seq<char>, b: Seq<char>) -> bool {
    exists|k: int| #[trigger] parts_at(encode_utf8(a), encode_utf8(b), k)
}

/// Up to `k` the bytes agree, and there `a` has the lesser one, or ends.
pub open spec fn parts_at(a: Seq<u8>, b: Seq<u8>, k: int) -> bool {
    &&& 0 <= k <= a.len()
    &&& k < b.len()
    &&& forall|i: int| 0 <= i < k ==> a[i] == b[i]
    &&& k < a.len() ==> a[k] < b[k]
}

/// The digest of a candidate is the usable one.
pub proof fn lemma_digest_of(urlmd5: Option<String>)
    ensures
        usable(optional_text(urlmd5)) == digest_of(urlmd5),
{
}

/// What a list of strings holds, its texts hold.
pub proof fn lemma_listed(list: Seq<String>, text: Seq<char>)
    ensures
        texts(list).contains(text) == listed(list, text),
{
    if texts(list).contains(text) {
        let i = choose|i: int| 0 <= i < texts(list).len() && texts(list)[i] == text;
        assert(list[i]@ == text);
    }
    if listed(list, text) {
        let i = choose|i: int| 0 <= i < list.len() && (#[trigger] list[i])@ == text;
        assert(texts(list)[i] == text);
    }
}

/// A number in decimal can be read back.
pub proof fn lemma_writes(n: nat)
    ensures
        writes(decimal(n), n),
        n > 0 ==> decimal(n)[0] != '0',
    decreases n,
{
    if n < 10 {
        assert(decimal(n) =~= seq![digit(n)]);
        assert(decimal(n).drop_last() =~= Seq::empty());
        assert(worth(decimal(n).drop_last()) == 0);
    } else {
        lemma_writes(n / 10);
        assert(decimal(n).drop_last() =~= decimal(n / 10));
        let all = decimal(n);
        assert forall|i: int| 0 <= i < all.len() implies '0' <= #[trigger] all[i] <= '9' by {
            if i < decimal(n / 10).len() {
                assert(all[i] == decimal(n / 10)[i]);
            }
        }
    }
}

/// Counting by filter what is equal.
pub proof fn lemma_equal_to(plays: Seq<u64>, count: u64)
    ensures
        equal_to(plays, count) == occurrences(plays, count),
    decreases plays.len(),
{
    reveal(Seq::filter);
    if plays.len() > 0 {
        lemma_equal_to(plays.drop_last(), count);
    }
}

/// Counting by filter what is less.
pub proof fn lemma_less_than(plays: Seq<u64>, count: u64)
    ensures
        less_than(plays, count) == occurrences_below(plays, count as nat),
    decreases plays.len(),
{
    reveal(Seq::filter);
    if plays.len() > 0 {
        lemma_less_than(plays.drop_last(), count);
    }
}

/// What tallies a list of plays is its histogram.
pub proof fn lemma_tallied(distribution: Map<u64, u64>, plays: Seq<u64>)
    requires
        plays.len() <= u64::MAX,
    ensures
        tallied(distribution, plays) <==> distribution == histogram(plays),
{
    assert forall|count: u64| equal_to(plays, count) == occurrences(plays, count)
        && occurrences(plays, count) <= plays.len() by {
        lemma_equal_to(plays, count);
        lemma_occurrences(plays, count);
    }
    if tallied(distribution, plays) {
        assert(distribution =~= histogram(plays));
    }
    if distribution == histogram(plays) {
        assert(tallied(distribution, plays));
    }
}

proof fn lemma_bytes_part(a: Seq<u8>, b: Seq<u8>)
    ensures
        bytes_below(a, b) == exists|k: int| #[trigger] parts_at(a, b, k),
    decreases a.len(),
{
    if b.len() > 0 && a.len() > 0 && a[0] == b[0] {
        lemma_bytes_part(a.skip(1), b.skip(1));
        if bytes_below(a, b) {
            let k = choose|k: int| parts_at(a.skip(1), b.skip(1), k);
            assert forall|i: int| 0 <= i < k + 1 implies a[i] == b[i] by {
                if i > 0 {
                    assert(a.skip(1)[i - 1] == b.skip(1)[i - 1]);
                }
            }
            assert(parts_at(a, b, k + 1));
        }
        if exists|k: int| #[trigger] parts_at(a, b, k) {
            let k = choose|k: int| parts_at(a, b, k);
            assert(parts_at(a.skip(1), b.skip(1), k - 1));
        }
    } else if b.len() > 0 {
        if bytes_below(a, b) {
            assert(parts_at(a, b, 0));
        }
    }
}

/// The order of texts, by the first byte that differs.
pub proof fn lemma_precedes(a: Seq<char>, b: Seq<char>)
    ensures
        text_below(a, b) == precedes(a, b),
{
    lemma_bytes_part(encode_utf8(a), encode_utf8(b));
}

} // verus!
