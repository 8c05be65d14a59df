//! A preparation from its first step to its lookup.

use vstd::prelude::*;

use crate::artifact::{
    artifact_refusal, digest_prefix, of_kind, read_refusal, snapshot_identifier,
};
use crate::counts::lookup_start;
use crate::database::{
    columns_refusal, open_failure_message, table_refusal, ColumnsFailure, OpenFailure,
};
use crate::population::{usable_urlmd5s, IDENTITY_ARTIFACT};
use crate::prepare::{decoded_refusal, follows_lookup, starts, PrepareStep, SnapshotSource};
use crate::protocol::{ArtifactDescriptor, IdentityArtifact, ResourceDescriptor};

verus! {

/// What the outside answers, should it be asked.
pub ghost struct Outside<C> {
    pub read: Result<Vec<u8>, String>,
    pub decoded: Result<IdentityArtifact, String>,
    pub opened: Result<C, OpenFailure>,
    pub exists: Result<bool, String>,
    pub columns: Result<Vec<String>, ColumnsFailure>,
}

/// `next` is the step after `step` with an answer from `outside`. A preparation that
/// has failed, or has come to its lookup, stays where it is.
pub open spec fn advances<C>(step: PrepareStep<C>, outside: Outside<C>, next: PrepareStep<C>) -> bool {
    match step {
        PrepareStep::ReadArtifact(reading) => reading.leads_to(outside.read, next),
        PrepareStep::DecodeIdentities(decoding) => decoding.leads_to(outside.decoded, next),
        PrepareStep::OpenDatabase(opening) => opening.leads_to(outside.opened, next),
        PrepareStep::InspectTable(inspection) => inspection.leads_to(outside.exists, next),
        PrepareStep::ListColumns(listing) => listing.leads_to(outside.columns, next),
        _ => next == step,
    }
}

/// The first objection to a preparation, in the order in which things are looked at.
pub open spec fn objection<C>(
    artifacts: Seq<ArtifactDescriptor>,
    resources: Seq<ResourceDescriptor>,
    outside: Outside<C>,
) -> Option<Seq<char>> {
    if artifact_refusal(artifacts, IDENTITY_ARTIFACT@) is Some {
        artifact_refusal(artifacts, IDENTITY_ARTIFACT@)
    } else if read_refusal(of_kind(artifacts, IDENTITY_ARTIFACT@)[0], outside.read) is Some {
        read_refusal(of_kind(artifacts, IDENTITY_ARTIFACT@)[0], outside.read)
    } else if decoded_refusal(outside.decoded, resources) is Some {
        decoded_refusal(outside.decoded, resources)
    } else if let Err(failure) = outside.opened {
        Some(open_failure_message(failure))
    } else if table_refusal(outside.exists) is Some {
        table_refusal(outside.exists)
    } else {
        columns_refusal(outside.columns)
    }
}

/// A preparation fails with the first objection to it, and comes to the lookup of
/// the usable digests of the eligible candidates, in the snapshot that was opened,
/// where there is none. Its snapshot is identified by the artifact's digest and the
/// number of candidates.
pub proof fn law_preparation_heeds_the_first_objection<C>(
    artifacts: Seq<ArtifactDescriptor>,
    resources: Seq<ResourceDescriptor>,
    outside: Outside<C>,
    steps: Seq<PrepareStep<C>>,
)
    requires
        steps.len() == 6,
        starts(artifacts, resources, steps[0]),
        forall|i: int|
            #![trigger steps[i]]
            0 <= i < 5 ==> advances(steps[i], outside, steps[i + 1]),
    ensures
        match objection(artifacts, resources, outside) {
            Some(message) => steps[5] matches PrepareStep::Failed(given) && given@ == message,
            None => exists|source: SnapshotSource<C>| #[trigger]
                follows_lookup(
                    source,
                    lookup_start(usable_urlmd5s(source.candidates@).to_set()),
                    steps[5],
                ) && outside.opened == Ok::<_, OpenFailure>(source.connection)
                    && outside.decoded is Ok && source.candidates
                    == outside.decoded->Ok_0.candidates && source.snapshot_id@
                    == snapshot_identifier(
                    digest_prefix(of_kind(artifacts, IDENTITY_ARTIFACT@)[0].sha256@),
                    source.candidates@.len(),
                ),
        },
{
    assert(advances(steps[0], outside, steps[1]));
    assert(advances(steps[1], outside, steps[2]));
    assert(advances(steps[2], outside, steps[3]));
    assert(advances(steps[3], outside, steps[4]));
    assert(advances(steps[4], outside, steps[5]));
    match steps[0] {
        PrepareStep::ReadArtifact(reading) => {
            assert(of_kind(artifacts, IDENTITY_ARTIFACT@)[0] == *reading.artifact);
        },
        _ => {},
    }
}

} // verus!
