//! Preparing a snapshot, one request to the outside at a time.
//!
//! Each step that waits for the outside names what it waits for, and takes the
//! answer in its `resume`. A preparation ends `Ready` or `Failed`.

use vstd::prelude::*;

use crate::artifact::{
    artifact_refusal, digest_prefix, hashable, identify_snapshot, leading_digits,
    lemma_hex_ascii, of_kind, read_refusal, required_artifact, required_read_only_resource,
    resource_refusal, snapshot_identifier, verified_artifact_bytes,
};
use crate::counts::{
    batch_count, batches, lookup_start, lookup_step, query_counts, query_failure_message,
    query_views, row_views, absorb, CountLookup, CountRow, CountStep, CountStepView, QueryFailure,
};
use crate::database::{
    columns_refusal, describe_open_failure, open_failure_message, table_refusal,
    validate_tracks_persistent_columns, validate_tracks_persistent_table, ColumnsFailure,
    OpenFailure,
};
use crate::population::{
    collect_urlmd5s, identity_refusal, tally, usable_urlmd5s, validate_identities, Population,
    IDENTITY_ARTIFACT,
};
use crate::protocol::{
    ArtifactDescriptor, CandidateIdentity, IdentityArtifact, ResourceDescriptor,
};
use crate::text::concat;

verus! {

/// The kind of resource that is the Lyrion persist database.
pub const DATABASE_RESOURCE: &'static str = "lms-persist-sqlite-v1";

/// Waits for the bytes of the file at `artifact.path`.
pub struct ArtifactReading<'a> {
    pub artifact: &'a ArtifactDescriptor,
    pub resources: &'a [ResourceDescriptor],
}

/// Waits for `bytes` to be decoded as the list of eligible candidates.
pub struct IdentityDecoding<'a> {
    pub bytes: Vec<u8>,
    pub digest_prefix: String,
    pub resources: &'a [ResourceDescriptor],
}

/// Waits for a read-only snapshot of the database at `resource.path`.
pub struct DatabaseOpening<'a> {
    pub resource: &'a ResourceDescriptor,
    pub candidates: Vec<CandidateIdentity>,
    pub snapshot_id: String,
}

/// An open snapshot and the candidates to look up in it.
pub struct SnapshotSource<C> {
    pub connection: C,
    pub candidates: Vec<CandidateIdentity>,
    pub snapshot_id: String,
}

/// Waits to learn whether the table of play counts exists.
pub struct TableInspection<C> {
    pub source: SnapshotSource<C>,
}

/// Waits for the columns of the table of play counts.
pub struct ColumnListing<C> {
    pub source: SnapshotSource<C>,
}

/// Waits for the rows of `lookup.query`.
pub struct CountFetching<C> {
    pub lookup: CountLookup,
    pub source: SnapshotSource<C>,
}

/// A snapshot with its population, ready to be installed.
pub struct PreparedSnapshot<C> {
    pub connection: C,
    pub population: Population,
    pub snapshot_id: String,
    pub query_batches: u64,
}

/// Where a preparation stands.
pub enum PrepareStep<'a, C> {
    ReadArtifact(ArtifactReading<'a>),
    DecodeIdentities(IdentityDecoding<'a>),
    OpenDatabase(DatabaseOpening<'a>),
    InspectTable(TableInspection<C>),
    ListColumns(ColumnListing<C>),
    FetchCounts(CountFetching<C>),
    Ready(PreparedSnapshot<C>),
    Failed(String),
}

/// The first step: the one artifact that lists the eligible candidates is read.
pub open spec fn starts<C>(
    artifacts: Seq<ArtifactDescriptor>,
    resources: Seq<ResourceDescriptor>,
    step: PrepareStep<C>,
) -> bool {
    match step {
        PrepareStep::ReadArtifact(reading) => {
            &&& artifact_refusal(artifacts, IDENTITY_ARTIFACT@) is None
            &&& of_kind(artifacts, IDENTITY_ARTIFACT@) == seq![*reading.artifact]
            &&& reading.resources@ == resources
        },
        PrepareStep::Failed(message) => artifact_refusal(artifacts, IDENTITY_ARTIFACT@) == Some(
            message@,
        ),
        _ => false,
    }
}

/// Begins a preparation.
pub fn start<'a, C>(
    artifacts: &'a [ArtifactDescriptor],
    resources: &'a [ResourceDescriptor],
) -> (step: PrepareStep<'a, C>)
    ensures
        starts(artifacts@, resources@, step),
{
    match required_artifact(artifacts, IDENTITY_ARTIFACT) {
        Ok(artifact) => PrepareStep::ReadArtifact(ArtifactReading { artifact, resources }),
        Err(message) => PrepareStep::Failed(message),
    }
}

impl<'a> ArtifactReading<'a> {
    /// Bytes with the announced digest are decoded; anything else is refused.
    pub open spec fn leads_to<C>(
        self,
        read: Result<Vec<u8>, String>,
        step: PrepareStep<'a, C>,
    ) -> bool {
        match step {
            PrepareStep::DecodeIdentities(decoding) => {
                &&& read_refusal(*self.artifact, read) is None
                &&& read == Ok::<_, String>(decoding.bytes)
                &&& decoding.digest_prefix@ == digest_prefix(self.artifact.sha256@)
                &&& decoding.resources == self.resources
            },
            PrepareStep::Failed(message) => read_refusal(*self.artifact, read) == Some(message@),
            _ => false,
        }
    }

    /// Takes what reading the file gave, and hands its bytes on where their digest
    /// is the announced one.
    pub fn resume<C>(self, read: Result<Vec<u8>, String>) -> (step: PrepareStep<'a, C>)
        requires
            read matches Ok(bytes) ==> hashable(bytes@),
        ensures
            self.leads_to(read, step),
    {
        match verified_artifact_bytes(self.artifact, read) {
            Ok(bytes) => {
                proof {
                    lemma_hex_ascii(crate::artifact::sha256(bytes@));
                }
                PrepareStep::DecodeIdentities(
                    IdentityDecoding {
                        bytes,
                        digest_prefix: leading_digits(self.artifact.sha256.as_str()),
                        resources: self.resources,
                    },
                )
            },
            Err(message) => PrepareStep::Failed(message),
        }
    }
}

/// Why no database is opened after a list of eligible candidates was decoded.
pub open spec fn decoded_refusal(
    decoded: Result<IdentityArtifact, String>,
    resources: Seq<ResourceDescriptor>,
) -> Option<Seq<char>> {
    match decoded {
        Ok(identities) => match identity_refusal(identities) {
            Some(message) => Some(message),
            None => resource_refusal(resources, DATABASE_RESOURCE@),
        },
        Err(error) => Some("cannot decode candidate-identity artifact: "@ + error@),
    }
}

impl<'a> IdentityDecoding<'a> {
    /// With a valid list and one read-only database, that database is opened.
    pub open spec fn leads_to<C>(
        self,
        decoded: Result<IdentityArtifact, String>,
        step: PrepareStep<'a, C>,
    ) -> bool {
        match step {
            PrepareStep::OpenDatabase(opening) => {
                &&& decoded_refusal(decoded, self.resources@) is None
                &&& of_kind(self.resources@, DATABASE_RESOURCE@) == seq![*opening.resource]
                &&& decoded matches Ok(identities)
                &&& opening.candidates == identities.candidates
                &&& opening.snapshot_id@ == snapshot_identifier(
                    self.digest_prefix@,
                    opening.candidates@.len(),
                )
            },
            PrepareStep::Failed(message) => decoded_refusal(decoded, self.resources@) == Some(
                message@,
            ),
            _ => false,
        }
    }

    /// Takes the decoded list, and goes on to the one read-only database.
    pub fn resume<C>(self, decoded: Result<IdentityArtifact, String>) -> (step: PrepareStep<'a, C>)
        ensures
            self.leads_to(decoded, step),
    {
        let identities = match decoded {
            Ok(identities) => identities,
            Err(error) => {
                return PrepareStep::Failed(
                    concat("cannot decode candidate-identity artifact: ", error.as_str()),
                );
            },
        };
        match validate_identities(&identities) {
            Ok(_) => {},
            Err(message) => {
                return PrepareStep::Failed(message);
            },
        }
        match required_read_only_resource(self.resources, DATABASE_RESOURCE) {
            Ok(resource) => {
                let snapshot_id = identify_snapshot(
                    self.digest_prefix.as_str(),
                    identities.candidates.len(),
                );
                PrepareStep::OpenDatabase(
                    DatabaseOpening { resource, candidates: identities.candidates, snapshot_id },
                )
            },
            Err(message) => PrepareStep::Failed(message),
        }
    }
}

impl<'a> DatabaseOpening<'a> {
    /// The table of an open snapshot is inspected.
    pub open spec fn leads_to<C>(
        self,
        opened: Result<C, OpenFailure>,
        step: PrepareStep<'a, C>,
    ) -> bool {
        match opened {
            Ok(connection) => {
                &&& step matches PrepareStep::InspectTable(inspection)
                &&& inspection.source.connection == connection
                &&& inspection.source.candidates == self.candidates
                &&& inspection.source.snapshot_id == self.snapshot_id
            },
            Err(failure) => {
                &&& step matches PrepareStep::Failed(message)
                &&& message@ == open_failure_message(failure)
            },
        }
    }

    /// Takes the open snapshot.
    pub fn resume<C>(self, opened: Result<C, OpenFailure>) -> (step: PrepareStep<'a, C>)
        ensures
            self.leads_to(opened, step),
    {
        match opened {
            Ok(connection) => PrepareStep::InspectTable(
                TableInspection {
                    source: SnapshotSource {
                        connection,
                        candidates: self.candidates,
                        snapshot_id: self.snapshot_id,
                    },
                },
            ),
            Err(failure) => PrepareStep::Failed(describe_open_failure(failure)),
        }
    }
}

impl<C> TableInspection<C> {
    /// The columns of a table that exists are listed.
    pub open spec fn leads_to<'a>(
        self,
        exists: Result<bool, String>,
        step: PrepareStep<'a, C>,
    ) -> bool {
        match table_refusal(exists) {
            None => {
                &&& step matches PrepareStep::ListColumns(listing)
                &&& listing.source == self.source
            },
            Some(refusal) => {
                &&& step matches PrepareStep::Failed(message)
                &&& message@ == refusal
            },
        }
    }

    /// Takes whether the table exists.
    pub fn resume<'a>(self, exists: Result<bool, String>) -> (step: PrepareStep<'a, C>)
        ensures
            self.leads_to(exists, step),
    {
        match validate_tracks_persistent_table(exists) {
            Ok(_) => PrepareStep::ListColumns(ColumnListing { source: self.source }),
            Err(message) => PrepareStep::Failed(message),
        }
    }
}

/// The step that a preparation is at when its lookup is at `lookup`.
pub open spec fn follows_lookup<C>(
    source: SnapshotSource<C>,
    lookup: CountStepView,
    step: PrepareStep<C>,
) -> bool {
    match lookup {
        CountStepView::Fetch { query, later, counts } => {
            &&& step matches PrepareStep::FetchCounts(fetching)
            &&& fetching.source == source
            &&& CountStep::Fetch(fetching.lookup)@ == lookup
        },
        CountStepView::Done(counts) => {
            &&& step matches PrepareStep::Ready(snapshot)
            &&& snapshot.connection == source.connection
            &&& snapshot.snapshot_id == source.snapshot_id
            &&& snapshot.population.wf()
            &&& snapshot.population.tallies(source.candidates@, counts)
            &&& snapshot.query_batches == batches(usable_urlmd5s(source.candidates@).len())
        },
        CountStepView::Failed(refusal) => {
            &&& step matches PrepareStep::Failed(message)
            &&& message@ == refusal
        },
    }
}

fn after_lookup<'a, C>(source: SnapshotSource<C>, lookup: CountStep) -> (step: PrepareStep<'a, C>)
    ensures
        follows_lookup(source, lookup@, step),
{
    match lookup {
        CountStep::Fetch(lookup) => PrepareStep::FetchCounts(CountFetching { lookup, source }),
        CountStep::Done(counts) => {
            let population = tally(&source.candidates, &counts);
            let urlmd5s = collect_urlmd5s(&source.candidates);
            assert(urlmd5s@.len() == usable_urlmd5s(source.candidates@).len());
            PrepareStep::Ready(
                PreparedSnapshot {
                    connection: source.connection,
                    population,
                    snapshot_id: source.snapshot_id,
                    query_batches: batch_count(urlmd5s.len()),
                },
            )
        },
        CountStep::Failed(message) => PrepareStep::Failed(message),
    }
}

impl<C> ColumnListing<C> {
    /// With the columns that are read from, the candidates are looked up.
    pub open spec fn leads_to<'a>(
        self,
        columns: Result<Vec<String>, ColumnsFailure>,
        step: PrepareStep<'a, C>,
    ) -> bool {
        match columns_refusal(columns) {
            None => follows_lookup(
                self.source,
                lookup_start(usable_urlmd5s(self.source.candidates@).to_set()),
                step,
            ),
            Some(refusal) => {
                &&& step matches PrepareStep::Failed(message)
                &&& message@ == refusal
            },
        }
    }

    /// Takes the names of the columns, and starts to look up the candidates.
    pub fn resume<'a>(self, columns: Result<Vec<String>, ColumnsFailure>) -> (step: PrepareStep<
        'a,
        C,
    >)
        ensures
            self.leads_to(columns, step),
    {
        match validate_tracks_persistent_columns(columns) {
            Ok(_) => {
                let urlmd5s = collect_urlmd5s(&self.source.candidates);
                let lookup = query_counts(urlmd5s.as_slice());
                after_lookup(self.source, lookup)
            },
            Err(message) => PrepareStep::Failed(message),
        }
    }
}

impl<C> CountFetching<C> {
    /// Takes the answer to a query.
    pub fn resume<'a>(self, answer: Result<Vec<CountRow>, QueryFailure>) -> (step: PrepareStep<
        'a,
        C,
    >)
        ensures
            follows_lookup(
                self.source,
                match answer {
                    Ok(rows) => lookup_step(
                        query_views(self.lookup.later@),
                        absorb(self.lookup.counts@, row_views(rows@)),
                    ),
                    Err(failure) => CountStepView::Failed(query_failure_message(failure)),
                },
                step,
            ),
    {
        let lookup = self.lookup.resume(answer);
        after_lookup(self.source, lookup)
    }
}

} // verus!
