//! What the operations can be called with.

use vstd::hash_map::StringHashMap;
use vstd::prelude::*;

use crate::artifact::{
    accept_digest, hex_text, identify_snapshot, leading_digits, required_artifact,
    required_read_only_resource, verified_artifact_bytes,
};
use crate::counts::{batch_count, known_or_zero, query_counts, CountLookup, CountRow, QueryFailure};
use crate::database::{
    describe_open_failure, validate_tracks_persistent_columns, validate_tracks_persistent_table,
    ColumnsFailure, OpenFailure, COLUMNS_SQL, RELEASE_SQL, SNAPSHOT_SQL, TABLE_SQL,
    BUSY_TIMEOUT_SECONDS,
};
use crate::laws::guidance::{can_count, lemma_can_count};
use crate::laws::terms::{equal_to, lemma_equal_to, lemma_tallied, tallied};
use crate::order::sorted_unique;
use crate::population::{collect_urlmd5s, tally, usable_urlmd5, validate_identities};
use crate::prepare::{
    start, ArtifactReading, ColumnListing, CountFetching, DatabaseOpening, IdentityDecoding,
    PreparedSnapshot, TableInspection,
};
use crate::protocol::{
    ArtifactDescriptor, Candidate, CandidateIdentity, Diagnostics, GuidanceRequest,
    GuidanceResponse, IdentityArtifact, ResourceDescriptor, Spi,
};
use crate::provider::Provider;
use crate::ranking::{lemma_below_monotone, lemma_histogram_frequency, lemma_histogram_total};
use crate::score::{ScoreFetching, ScoreReady};
use crate::service::{
    ends_session, handle, input_failed, invalid_request, parse_command, prepare_response,
    unsupported_version, version_metadata_json,
};
use crate::text::{concat, concat3, decimal_text, is_blank, same_text};

verus! {

/// Texts of any length can be compared, joined, sorted and written.
pub proof fn law_texts_may_be_any(
    a: &str,
    b: &str,
    c: &str,
    n: u64,
    bytes: &[u8],
    items: &[String],
)
    ensures
        call_requires(same_text, (a, b)),
        call_requires(is_blank, (a,)),
        call_requires(concat, (a, b)),
        call_requires(concat3, (a, b, c)),
        call_requires(decimal_text, (n,)),
        call_requires(hex_text, (bytes,)),
        call_requires(sorted_unique, (items,)),
{
}

/// Any play counts can be looked up, and any rows or failures taken.
pub proof fn law_lookups_may_be_any(
    urlmd5s: &[String],
    items: usize,
    lookup: CountLookup,
    answer: Result<Vec<CountRow>, QueryFailure>,
    counts: StringHashMap<u64>,
    urlmd5: &str,
)
    ensures
        call_requires(query_counts, (urlmd5s,)),
        call_requires(batch_count, (items,)),
        call_requires(CountLookup::resume, (lookup, answer)),
        call_requires(known_or_zero, (&counts, urlmd5)),
{
}

/// Anything that is handed over or found can be examined; what is hashed must have
/// a length that SHA-256 can count, which is that of fewer than two to the 61st bytes.
pub proof fn law_anything_can_be_examined(
    artifacts: &[ArtifactDescriptor],
    resources: &[ResourceDescriptor],
    kind: &str,
    artifact: ArtifactDescriptor,
    read: Result<Vec<u8>, String>,
    bytes: Vec<u8>,
    digest: &[u8],
    eligible: usize,
    failure: OpenFailure,
    answer: Result<bool, String>,
    columns: Result<Vec<String>, ColumnsFailure>,
    identities: IdentityArtifact,
    urlmd5: Option<String>,
    candidates: Vec<CandidateIdentity>,
    counts: StringHashMap<u64>,
)
    ensures
        call_requires(required_artifact, (artifacts, kind)),
        call_requires(required_read_only_resource, (resources, kind)),
        (read matches Ok(found) ==> found@.len() < 2305843009213693952) ==> call_requires(
            verified_artifact_bytes,
            (&artifact, read),
        ),
        call_requires(accept_digest, (&artifact, bytes, digest)),
        (forall|i: int| 0 <= i < kind@.len() ==> '\u{0}' <= #[trigger] kind@[i] <= '\u{7f}') ==> call_requires(
            leading_digits,
            (kind,),
        ),
        call_requires(identify_snapshot, (kind, eligible)),
        call_requires(describe_open_failure, (failure,)),
        call_requires(validate_tracks_persistent_table, (answer,)),
        call_requires(validate_tracks_persistent_columns, (columns,)),
        call_requires(validate_identities, (&identities,)),
        call_requires(usable_urlmd5, (&urlmd5,)),
        call_requires(collect_urlmd5s, (&candidates,)),
        call_requires(tally, (&candidates, &counts)),
{
    if forall|i: int| 0 <= i < kind@.len() ==> '\u{0}' <= #[trigger] kind@[i] <= '\u{7f}' {
        assert(vstd::utf8::is_ascii_chars(kind@));
    }
}

/// A preparation can be begun with anything, and any answer taken, but for an artifact
/// that SHA-256 cannot count.
pub proof fn law_preparations_take_any_answer<'a, C>(
    artifacts: &'a [ArtifactDescriptor],
    resources: &'a [ResourceDescriptor],
    reading: ArtifactReading<'a>,
    read: Result<Vec<u8>, String>,
    decoding: IdentityDecoding<'a>,
    decoded: Result<IdentityArtifact, String>,
    opening: DatabaseOpening<'a>,
    opened: Result<C, OpenFailure>,
    inspection: TableInspection<C>,
    answer: Result<bool, String>,
    listing: ColumnListing<C>,
    columns: Result<Vec<String>, ColumnsFailure>,
    fetching: CountFetching<C>,
    rows: Result<Vec<CountRow>, QueryFailure>,
)
    ensures
        call_requires(start::<C>, (artifacts, resources)),
        (read matches Ok(found) ==> found@.len() < 2305843009213693952) ==> call_requires(
            ArtifactReading::resume::<C>,
            (reading, read),
        ),
        call_requires(IdentityDecoding::resume::<C>, (decoding, decoded)),
        call_requires(DatabaseOpening::resume::<C>, (opening, opened)),
        call_requires(TableInspection::<C>::resume, (inspection, answer)),
        call_requires(ColumnListing::<C>::resume, (listing, columns)),
        call_requires(CountFetching::<C>::resume, (fetching, rows)),
{
}

/// A provider takes any request, in any state.
pub proof fn law_providers_take_any_request<'a, C>(
    provider: &mut Provider<C>,
    spi: Spi,
    request: &'a GuidanceRequest,
    artifacts: &'a [ArtifactDescriptor],
    resources: &'a [ResourceDescriptor],
    snapshot: PreparedSnapshot<C>,
    elapsed_ms: u128,
    request_id: &'a str,
    candidates: &'a [Candidate],
    fetching: ScoreFetching<'a>,
    rows: Result<Vec<CountRow>, QueryFailure>,
    ready: ScoreReady<'a>,
)
    ensures
        call_requires(handle::<C>, (provider, &spi, request)),
        call_requires(Provider::<C>::manifest, (&spi,)),
        call_requires(Provider::<C>::reset, (provider,)),
        call_requires(Provider::<C>::prepare, (provider, artifacts, resources)),
        call_requires(Provider::<C>::install, (provider, snapshot, elapsed_ms)),
        call_requires(Provider::<C>::score, (&*old(provider), request_id, candidates)),
        call_requires(ScoreFetching::resume, (fetching, rows)),
        call_requires(Provider::<C>::can_record, (&*old(provider), &ready)),
{
}

/// Any command line, error or outcome can be answered.
pub proof fn law_anything_can_be_answered(
    args: &[String],
    version: u64,
    error: String,
    response: GuidanceResponse,
    outcome: Result<(Option<String>, Diagnostics), String>,
)
    ensures
        call_requires(parse_command, (args,)),
        call_requires(version_metadata_json, (version,)),
        call_requires(unsupported_version, (version,)),
        call_requires(input_failed, (error,)),
        call_requires(invalid_request, (error,)),
        call_requires(ends_session, (&response,)),
        call_requires(prepare_response, (outcome,)),
{
}

/// Any play count can be ranked in a distribution that tallies plays.
pub proof fn law_any_count_can_be_ranked<C>(provider: Provider<C>, plays: Seq<u64>, count: u64)
    requires
        plays.len() <= u64::MAX,
        tallied(provider.distribution@, plays),
    ensures
        call_requires(Provider::<C>::percentile, (&provider, count)),
        call_requires(
            crate::ranking::percentile,
            (&provider.distribution, provider.eligible_count, count),
        ),
        call_requires(crate::ranking::count_below, (&provider.distribution, count)),
{
    lemma_tallied(provider.distribution@, plays);
    lemma_histogram_total(plays);
    lemma_below_monotone(provider.distribution@, count as nat, (u64::MAX + 1) as nat);
}

/// Every score request of a provider that has a snapshot can be finished, however
/// large the population, as long as its counters have room.
pub proof fn law_every_score_request_can_be_finished<C>(
    provider: &mut Provider<C>,
    ready: ScoreReady,
    elapsed_ms: u128,
    plays: Seq<u64>,
)
    requires
        old(provider).prepared,
        old(provider).connection is Some,
        old(provider).snapshot_id is Some,
        tallied(old(provider).distribution@, plays),
        old(provider).eligible_count == plays.len(),
        old(provider).zero_count == equal_to(plays, 0),
        old(provider).known_count <= plays.len(),
        can_count(*old(provider), ready.plan),
    ensures
        call_requires(Provider::<C>::finish_score, (provider, ready, elapsed_ms)),
{
    lemma_can_count(*old(provider), ready.plan);
    lemma_tallied(old(provider).distribution@, plays);
    lemma_histogram_total(plays);
    lemma_histogram_frequency(plays, 0);
    lemma_equal_to(plays, 0);
}

/// The statements that are sent to the database besides the lookups, and how long a
/// locked one is waited for.
pub proof fn law_statements_are_these()
    ensures
        SNAPSHOT_SQL@ == "PRAGMA query_only = ON; BEGIN;"@,
        RELEASE_SQL@ == "ROLLBACK;"@,
        TABLE_SQL@
            == "SELECT EXISTS(SELECT 1 FROM sqlite_master WHERE type = 'table' AND name = 'tracks_persistent')"@,
        COLUMNS_SQL@ == "PRAGMA table_info(tracks_persistent)"@,
        BUSY_TIMEOUT_SECONDS == 2,
{
}

} // verus!
