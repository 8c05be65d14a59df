//! What each step of a preparation leads to, and what is installed in the end.

use vstd::prelude::*;

use crate::artifact::sha256;
use crate::counts::{CountRow, CountStep, CountStepView, QueryFailure};
use crate::database::{ColumnsFailure, OpenFailure};
use crate::laws::checks::{
    artifact_message, columns_accepted, columns_message, heads, identifies, identities_accepted,
    identities_message, lemma_artifacts, lemma_counts_all, lemma_heads, lemma_resources,
    lemma_with_digest, only_artifact, only_resource, resource_message, with_digest,
};
use crate::laws::guidance::{plays_on_record, reflects};
use crate::laws::queries::{
    batched, failed_query, learned, lemma_batched, lemma_learned, lemma_lookup_begun,
    lemma_lookup_resumed, lookup_begun, lookup_resumed, read_off,
};
use crate::laws::terms::{
    counts_all, digest_of, empty_handed, lemma_digest_of, lemma_listed, lemma_writes,
    plays_looked_up, written,
};
use crate::laws::texts::{lemma_spells, spells};
use crate::population::usable_urlmd5s;
use crate::prepare::{
    follows_lookup, start, ArtifactReading, ColumnListing, CountFetching, DatabaseOpening,
    IdentityDecoding, PrepareStep, PreparedSnapshot, SnapshotSource, TableInspection,
};
use crate::protocol::{
    ArtifactDescriptor, CandidateIdentity, Details, Diagnostics, IdentityArtifact,
    ResourceDescriptor,
};
use crate::provider::Provider;

verus! {

/// A preparation has begun: the one artifact that lists the eligible candidates is
/// read, or it is said why there is none.
pub open spec fn preparation_begun<C>(
    artifacts: Seq<ArtifactDescriptor>,
    resources: Seq<ResourceDescriptor>,
    step: PrepareStep<C>,
) -> bool {
    let kind = "eligible-candidate-identities-v1"@;
    match step {
        PrepareStep::ReadArtifact(reading) => {
            &&& only_artifact(artifacts, kind, *reading.artifact)
            &&& reading.resources@ == resources
        },
        PrepareStep::Failed(message) => {
            &&& forall|artifact: ArtifactDescriptor|
                !#[trigger] only_artifact(artifacts, kind, artifact)
            &&& message@ == artifact_message(artifacts, kind)
        },
        _ => false,
    }
}

/// How a preparation begins, field by field.
pub proof fn lemma_preparation_begun<C>(
    artifacts: Seq<ArtifactDescriptor>,
    resources: Seq<ResourceDescriptor>,
    step: PrepareStep<C>,
)
    requires
        crate::prepare::starts(artifacts, resources, step),
    ensures
        preparation_begun(artifacts, resources, step),
{
    lemma_artifacts(artifacts, "eligible-candidate-identities-v1"@);
}

/// A preparation begins with the only artifact that lists the eligible candidates.
pub proof fn law_preparations_begin_with_their_artifact<'a, C>(
    artifacts: &'a [ArtifactDescriptor],
    resources: &'a [ResourceDescriptor],
    step: PrepareStep<'a, C>,
)
    requires
        call_ensures(start::<C>, (artifacts, resources), step),
    ensures
        preparation_begun(artifacts@, resources@, step),
{
    lemma_preparation_begun(artifacts@, resources@, step);
}

/// What was read is decoded, as it is, exactly where its SHA-256 is the announced one.
pub proof fn law_only_announced_bytes_are_decoded<'a, C>(
    reading: ArtifactReading<'a>,
    read: Result<Vec<u8>, String>,
    step: PrepareStep<'a, C>,
)
    requires
        call_ensures(ArtifactReading::resume::<C>, (reading, read), step),
    ensures
        match step {
            PrepareStep::DecodeIdentities(decoding) => {
                &&& read == Ok::<Vec<u8>, String>(decoding.bytes)
                &&& spells(reading.artifact.sha256@, sha256(decoding.bytes@))
                &&& heads(decoding.digest_prefix@, reading.artifact.sha256@)
                &&& decoding.resources == reading.resources
            },
            PrepareStep::Failed(message) => match read {
                Ok(bytes) => {
                    &&& !spells(reading.artifact.sha256@, sha256(bytes@))
                    &&& message@ == reading.artifact.kind@ + " artifact SHA-256 mismatch"@
                },
                Err(error) => message@ == "cannot read "@ + reading.artifact.kind@ + " artifact: "@
                    + error@,
            },
            _ => false,
        },
{
    lemma_heads(reading.artifact.sha256@);
    if let Ok(bytes) = read {
        lemma_spells(reading.artifact.sha256@, sha256(bytes@));
    }
}

/// The database is opened exactly where the list of candidates can be used and there
/// is one read-only database; otherwise the first thing that is wrong is said.
pub proof fn law_databases_are_opened_for_good_lists<'a, C>(
    decoding: IdentityDecoding<'a>,
    decoded: Result<IdentityArtifact, String>,
    step: PrepareStep<'a, C>,
)
    requires
        call_ensures(IdentityDecoding::resume::<C>, (decoding, decoded), step),
    ensures
        match step {
            PrepareStep::OpenDatabase(opening) => {
                &&& decoded matches Ok(identities)
                &&& identities_accepted(identities)
                &&& only_resource(
                    decoding.resources@,
                    "lms-persist-sqlite-v1"@,
                    *opening.resource,
                )
                &&& opening.resource.access is ReadOnly
                &&& opening.candidates == identities.candidates
                &&& identifies(
                    opening.snapshot_id@,
                    decoding.digest_prefix@,
                    identities.candidates@.len(),
                )
            },
            PrepareStep::Failed(message) => match decoded {
                Ok(identities) => if identities_accepted(identities) {
                    &&& forall|resource: ResourceDescriptor| #[trigger]
                        only_resource(
                            decoding.resources@,
                            "lms-persist-sqlite-v1"@,
                            resource,
                        ) ==> !(resource.access is ReadOnly)
                    &&& message@ == resource_message(
                        decoding.resources@,
                        "lms-persist-sqlite-v1"@,
                    )
                } else {
                    message@ == identities_message(identities)
                },
                Err(error) => message@ == "cannot decode candidate-identity artifact: "@ + error@,
            },
            _ => false,
        },
{
    lemma_resources(decoding.resources@, "lms-persist-sqlite-v1"@);
    if let Ok(identities) = decoded {
        lemma_writes(identities.candidates@.len());
        if identities.schema_version == 1 && identities.schema_identity@
            == "eligible-candidate-identities-v1"@ && !identities_accepted(identities) {
            let i = choose|i: int|
                0 <= i < identities.candidates@.len() && !written(
                    (#[trigger] identities.candidates@[i]).candidate_id@,
                );
            assert(crate::text::blank(identities.candidates@[i].candidate_id@));
        }
        if identities_accepted(identities) {
            assert forall|i: int| 0 <= i < identities.candidates@.len() implies
                !crate::text::blank((#[trigger] identities.candidates@[i]).candidate_id@) by {
                assert(written(identities.candidates@[i].candidate_id@));
            }
        }
    }
}

/// An open snapshot is inspected; a failure to open one is told.
pub proof fn law_open_snapshots_are_inspected<'a, C>(
    opening: DatabaseOpening<'a>,
    opened: Result<C, OpenFailure>,
    step: PrepareStep<'a, C>,
)
    requires
        call_ensures(DatabaseOpening::resume::<C>, (opening, opened), step),
    ensures
        match opened {
            Ok(connection) => {
                &&& step matches PrepareStep::InspectTable(inspection)
                &&& inspection.source.connection == connection
                &&& inspection.source.candidates == opening.candidates
                &&& inspection.source.snapshot_id == opening.snapshot_id
            },
            Err(failure) => {
                &&& step matches PrepareStep::Failed(message)
                &&& message@ == match failure {
                    OpenFailure::Open(error) => "cannot open Lyrion persist database read-only: "@
                        + error@,
                    OpenFailure::BusyTimeout(error) => "cannot set SQLite busy timeout: "@ + error@,
                    OpenFailure::Begin(error) => "cannot begin read-only SQLite snapshot: "@
                        + error@,
                }
            },
        },
{
}

/// The columns of a table are listed exactly where it is known to exist.
pub proof fn law_existing_tables_are_listed<'a, C>(
    inspection: TableInspection<C>,
    answer: Result<bool, String>,
    step: PrepareStep<'a, C>,
)
    requires
        call_ensures(TableInspection::<C>::resume, (inspection, answer), step),
    ensures
        match answer {
            Ok(true) => {
                &&& step matches PrepareStep::ListColumns(listing)
                &&& listing.source == inspection.source
            },
            Ok(false) => {
                &&& step matches PrepareStep::Failed(message)
                &&& message@ == "tracks_persistent table is unavailable"@
            },
            Err(error) => {
                &&& step matches PrepareStep::Failed(message)
                &&& message@ == "cannot inspect tracks_persistent schema: "@ + error@
            },
        },
{
}

/// The digests that the eligible candidates are looked up by.
pub open spec fn eligible_digests(candidates: Seq<CandidateIdentity>) -> Set<Seq<char>> {
    Set::new(
        |urlmd5: Seq<char>|
            exists|i: int|
                0 <= i < candidates.len() && digest_of((#[trigger] candidates[i]).lms_urlmd5)
                    == Some(urlmd5),
    )
}

/// A snapshot is ready: it counts all candidates of its source by the counts that
/// were looked up.
pub open spec fn ready_from<C>(
    snapshot: PreparedSnapshot<C>,
    source: SnapshotSource<C>,
    counts: Map<Seq<char>, u64>,
) -> bool {
    &&& snapshot.connection == source.connection
    &&& snapshot.snapshot_id == source.snapshot_id
    &&& counts_all(snapshot.population, source.candidates@, counts)
    &&& batched(with_digest(source.candidates@).len(), snapshot.query_batches as int)
}

proof fn lemma_ready_from<'a, C>(
    source: SnapshotSource<C>,
    counts: Map<Seq<char>, u64>,
    step: PrepareStep<'a, C>,
)
    requires
        follows_lookup(source, CountStepView::Done(counts), step),
    ensures
        step matches PrepareStep::Ready(snapshot) && ready_from(snapshot, source, counts),
{
    lemma_with_digest(source.candidates@);
    lemma_batched(usable_urlmd5s(source.candidates@).len());
    if let PrepareStep::Ready(snapshot) = step {
        lemma_counts_all(snapshot.population, source.candidates@, counts);
    }
}

proof fn lemma_eligible_digests(candidates: Seq<CandidateIdentity>)
    ensures
        usable_urlmd5s(candidates).to_set() == eligible_digests(candidates),
    decreases candidates.len(),
{
    let listed_digests = usable_urlmd5s(candidates);
    lemma_with_digest(candidates);
    assert forall|urlmd5: Seq<char>|
        listed_digests.to_set().contains(urlmd5) == #[trigger] eligible_digests(
            candidates,
        ).contains(urlmd5) by {
        assert(listed_digests.to_set().contains(urlmd5) == listed_digests.contains(urlmd5));
        if listed_digests.contains(urlmd5) {
            lemma_digest_origin(candidates, urlmd5);
        }
        if eligible_digests(candidates).contains(urlmd5) {
            let i = choose|i: int|
                0 <= i < candidates.len() && digest_of((#[trigger] candidates[i]).lms_urlmd5)
                    == Some(urlmd5);
            lemma_digest_of(candidates[i].lms_urlmd5);
            crate::laws::scoring::lemma_usable_listed(candidates, i);
        }
    }
    assert(listed_digests.to_set() =~= eligible_digests(candidates));
}

proof fn lemma_digest_origin(candidates: Seq<CandidateIdentity>, urlmd5: Seq<char>)
    requires
        usable_urlmd5s(candidates).contains(urlmd5),
    ensures
        eligible_digests(candidates).contains(urlmd5),
    decreases candidates.len(),
{
    let all = usable_urlmd5s(candidates);
    if candidates.len() > 0 {
        let shorter = candidates.drop_last();
        let earlier = usable_urlmd5s(shorter);
        let last = candidates.len() - 1;
        lemma_digest_of(candidates[last].lms_urlmd5);
        let k = choose|k: int| 0 <= k < all.len() && all[k] == urlmd5;
        if k < earlier.len() {
            assert(earlier[k] == urlmd5);
            lemma_digest_origin(shorter, urlmd5);
            let i = choose|i: int|
                0 <= i < shorter.len() && digest_of((#[trigger] shorter[i]).lms_urlmd5) == Some(
                    urlmd5,
                );
            assert(candidates[i] == shorter[i]);
        } else {
            assert(digest_of(candidates[last].lms_urlmd5) == Some(urlmd5));
        }
    }
}

/// With the columns that are read, every eligible candidate that has a digest is
/// looked up by it as it is; without them, the first that is missing is named.
pub proof fn law_every_eligible_digest_is_looked_up<'a, C>(
    listing: ColumnListing<C>,
    columns: Result<Vec<String>, ColumnsFailure>,
    step: PrepareStep<'a, C>,
)
    requires
        call_ensures(ColumnListing::<C>::resume, (listing, columns), step),
    ensures
        match step {
            PrepareStep::FetchCounts(fetching) => {
                &&& columns_accepted(columns)
                &&& fetching.source == listing.source
                &&& lookup_begun(
                    CountStep::Fetch(fetching.lookup),
                    eligible_digests(listing.source.candidates@),
                )
            },
            PrepareStep::Ready(snapshot) => {
                &&& columns_accepted(columns)
                &&& forall|urlmd5: Seq<char>|
                    !#[trigger] eligible_digests(listing.source.candidates@).contains(urlmd5)
                &&& ready_from(snapshot, listing.source, Map::<Seq<char>, u64>::empty())
            },
            PrepareStep::Failed(message) => {
                &&& !columns_accepted(columns)
                &&& message@ == columns_message(columns)
            },
            _ => false,
        },
{
    let wanted = eligible_digests(listing.source.candidates@);
    lemma_eligible_digests(listing.source.candidates@);
    vstd::seq_lib::seq_to_set_is_finite(usable_urlmd5s(listing.source.candidates@));
    if let Ok(names) = columns {
        lemma_listed(names@, "urlmd5"@);
        lemma_listed(names@, "playcount"@);
    }
    if columns_accepted(columns) {
        match crate::counts::lookup_start(wanted) {
            CountStepView::Fetch { query, later, counts } => {
                if let PrepareStep::FetchCounts(fetching) = step {
                    lemma_lookup_begun(CountStep::Fetch(fetching.lookup), wanted);
                }
            },
            CountStepView::Done(counts) => {
                lemma_ready_from(listing.source, counts, step);
                lemma_nothing_wanted(wanted);
            },
            CountStepView::Failed(_) => {},
        }
    }
}

proof fn lemma_nothing_wanted(wanted: Set<Seq<char>>)
    requires
        wanted.finite(),
        crate::counts::lookup_start(wanted) is Done,
    ensures
        forall|urlmd5: Seq<char>| !#[trigger] wanted.contains(urlmd5),
{
    let list = crate::counts::sorted(wanted);
    crate::laws::lookup::law_sets_have_one_order(wanted);
    crate::laws::lookup::law_queries_name_each_digest_once(list);
    assert(list.len() == 0);
    assert forall|urlmd5: Seq<char>| !#[trigger] wanted.contains(urlmd5) by {
        assert(list.to_set().contains(urlmd5) == list.contains(urlmd5));
    }
}

/// A preparation learns from the rows of each query, and is ready after the last one.
pub proof fn law_preparations_carry_their_lookup_on<'a, C>(
    fetching: CountFetching<C>,
    answer: Result<Vec<CountRow>, QueryFailure>,
    step: PrepareStep<'a, C>,
)
    requires
        call_ensures(CountFetching::<C>::resume, (fetching, answer), step),
    ensures
        match step {
            PrepareStep::FetchCounts(next) => {
                &&& next.source == fetching.source
                &&& lookup_resumed(fetching.lookup, answer, CountStep::Fetch(next.lookup))
            },
            PrepareStep::Ready(snapshot) => {
                &&& answer matches Ok(rows)
                &&& fetching.lookup.later@.len() == 0
                &&& exists|counts: Map<Seq<char>, u64>| #[trigger]
                    learned(fetching.lookup.counts@, rows@, counts) && ready_from(
                        snapshot,
                        fetching.source,
                        counts,
                    )
            },
            PrepareStep::Failed(message) => {
                &&& answer matches Err(failure)
                &&& message@ == failed_query(failure)
            },
            _ => false,
        },
{
    match answer {
        Ok(rows) => {
            let counts = crate::counts::absorb(
                fetching.lookup.counts@,
                crate::counts::row_views(rows@),
            );
            let views = crate::counts::query_views(fetching.lookup.later@);
            assert(views.len() == fetching.lookup.later@.len());
            if fetching.lookup.later@.len() == 0 {
                lemma_learned(fetching.lookup.counts@, rows@);
                lemma_ready_from(fetching.source, counts, step);
            } else if let PrepareStep::FetchCounts(next) = step {
                lemma_lookup_resumed(fetching.lookup, answer, CountStep::Fetch(next.lookup));
            }
        },
        Err(_) => {},
    }
}

/// A provider begins without a snapshot.
pub proof fn law_providers_begin_empty_handed<C>(provider: Provider<C>)
    requires
        call_ensures(<Provider<C> as Default>::default, (), provider),
    ensures
        empty_handed(provider),
{
}

/// A reset leaves nothing of the snapshot, and gives up what held it.
pub proof fn law_resets_leave_nothing<C>(provider: &mut Provider<C>, released: Option<C>)
    requires
        call_ensures(Provider::<C>::reset, (provider,), released),
    ensures
        empty_handed(*final(provider)),
        released == old(provider).connection,
{
}

/// A preparation gives up the earlier snapshot before it looks at anything.
pub proof fn law_preparations_give_up_the_earlier_snapshot<'a, C>(
    provider: &mut Provider<C>,
    artifacts: &'a [ArtifactDescriptor],
    resources: &'a [ResourceDescriptor],
    begun: (Option<C>, PrepareStep<'a, C>),
)
    requires
        call_ensures(Provider::<C>::prepare, (provider, artifacts, resources), begun),
    ensures
        empty_handed(*final(provider)),
        begun.0 == old(provider).connection,
        preparation_begun(artifacts@, resources@, begun.1),
{
    lemma_preparation_begun(artifacts@, resources@, begun.1);
}

/// An installed snapshot is there, figure by figure, and is reported as it is.
pub proof fn law_snapshots_are_installed_as_they_are<C>(
    provider: &mut Provider<C>,
    snapshot: PreparedSnapshot<C>,
    elapsed_ms: u128,
    installed: (Option<String>, Diagnostics),
)
    requires
        call_ensures(Provider::<C>::install, (provider, snapshot, elapsed_ms), installed),
    ensures
        final(provider).connection == Some(snapshot.connection),
        final(provider).distribution@ == snapshot.population.distribution@,
        final(provider).eligible_count == snapshot.population.eligible_count,
        final(provider).known_count == snapshot.population.known_count,
        final(provider).zero_count == snapshot.population.zero_count,
        final(provider).snapshot_id matches Some(id) && id@ == snapshot.snapshot_id@,
        final(provider).prepared,
        final(provider).cached_counts@ == old(provider).cached_counts@,
        final(provider).score_batches == old(provider).score_batches,
        final(provider).score_query_batches == old(provider).score_query_batches,
        final(provider).score_cache_hits == old(provider).score_cache_hits,
        installed.0 matches Some(id) && id@ == snapshot.snapshot_id@,
        ({
            &&& installed.1.state matches Some(state)
            &&& state@ == "fresh"@
            &&& installed.1.request_count == 1
            &&& installed.1.failure_count == 0
            &&& installed.1.details matches Some(Details::Prepare(details))
            &&& details.eligible_candidates == snapshot.population.eligible_count
            &&& details.known_counts == snapshot.population.known_count
            &&& details.zero_counts == snapshot.population.zero_count
            &&& details.distinct_play_counts == snapshot.population.distribution@.len() as usize
            &&& details.prepare_query_batches == snapshot.query_batches
            &&& details.elapsed_ms == elapsed_ms
        }),
{
}

/// A provider reflects the table that its snapshot was looked up in: the plays that the
/// table records are tallied for every eligible candidate, zero for one without a
/// digest or a row.
pub proof fn law_installed_providers_reflect_the_table<C>(
    provider: &mut Provider<C>,
    snapshot: PreparedSnapshot<C>,
    elapsed_ms: u128,
    installed: (Option<String>, Diagnostics),
    source: SnapshotSource<C>,
    counts: Map<Seq<char>, u64>,
    table: Map<Seq<char>, Option<i64>>,
)
    requires
        empty_handed(*old(provider)),
        call_ensures(Provider::<C>::install, (provider, snapshot, elapsed_ms), installed),
        ready_from(snapshot, source, counts),
        read_off(counts, eligible_digests(source.candidates@), table),
    ensures
        reflects(*final(provider), source.candidates@, table),
        final(provider).zero_count == crate::laws::terms::equal_to(
            plays_on_record(table, source.candidates@),
            0,
        ),
        final(provider).known_count == source.candidates@.filter(
            |candidate: CandidateIdentity|
                digest_of(candidate.lms_urlmd5) matches Some(digest) && table.contains_key(digest),
        ).len(),
{
    let candidates = source.candidates@;
    let wanted = eligible_digests(candidates);
    let plays = Seq::new(
        candidates.len(),
        |i: int| plays_looked_up(counts, candidates[i].lms_urlmd5),
    );
    assert forall|i: int| 0 <= i < candidates.len() implies #[trigger] plays[i] == plays_on_record(
        table,
        candidates,
    )[i] by {
        if let Some(digest) = digest_of(candidates[i].lms_urlmd5) {
            assert(wanted.contains(digest));
            assert(counts.contains_key(digest) <==> table.contains_key(digest));
        }
    }
    assert(plays =~= plays_on_record(table, candidates));
    lemma_known_in_table(candidates, candidates, counts, table);
}

proof fn lemma_known_in_table(
    some: Seq<CandidateIdentity>,
    candidates: Seq<CandidateIdentity>,
    counts: Map<Seq<char>, u64>,
    table: Map<Seq<char>, Option<i64>>,
)
    requires
        read_off(counts, eligible_digests(candidates), table),
        forall|i: int| 0 <= i < some.len() ==> candidates.contains(#[trigger] some[i]),
    ensures
        some.filter(
            |candidate: CandidateIdentity|
                digest_of(candidate.lms_urlmd5) matches Some(digest) && counts.contains_key(digest),
        ).len() == some.filter(
            |candidate: CandidateIdentity|
                digest_of(candidate.lms_urlmd5) matches Some(digest) && table.contains_key(digest),
        ).len(),
    decreases some.len(),
{
    reveal(Seq::filter);
    if some.len() > 0 {
        assert forall|i: int| 0 <= i < some.drop_last().len() implies candidates.contains(
            #[trigger] some.drop_last()[i],
        ) by {
            assert(some[i] == some.drop_last()[i]);
        }
        lemma_known_in_table(some.drop_last(), candidates, counts, table);
        let last = some[some.len() - 1];
        assert(candidates.contains(last));
        if let Some(digest) = digest_of(last.lms_urlmd5) {
            let i = choose|i: int| 0 <= i < candidates.len() && candidates[i] == last;
            assert(digest_of(candidates[i].lms_urlmd5) == Some(digest));
            assert(eligible_digests(candidates).contains(digest));
            assert(counts.contains_key(digest) <==> table.contains_key(digest));
        }
    }
}

} // verus!
