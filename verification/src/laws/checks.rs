//! What is accepted and what is refused, and what the eligible candidates come to.

use vstd::hash_map::StringHashMap;
use vstd::prelude::*;

use crate::artifact::{
    accept_digest, digest_prefix, identify_snapshot, leading_digits, of_kind, required_artifact,
    required_read_only_resource, sha256, verified_artifact_bytes, Kinded,
};
use crate::counts::known_or_zero;
use crate::database::{
    describe_open_failure, validate_tracks_persistent_columns, validate_tracks_persistent_table,
    ColumnsFailure, OpenFailure,
};
use crate::laws::terms::{
    counts_all, digest_of, lemma_digest_of, lemma_equal_to, lemma_listed, lemma_tallied,
    lemma_writes, listed, plays_looked_up, writes, written,
};
use crate::laws::texts::{lemma_spells, spells};
use crate::population::{
    collect_urlmd5s, eligible_plays, known, tally, usable_urlmd5, usable_urlmd5s,
    validate_identities, Population,
};
use crate::protocol::{ArtifactDescriptor, CandidateIdentity, IdentityArtifact, ResourceDescriptor};
use crate::ranking::lemma_occurrences;
use crate::text::texts;

verus! {

/// Columns are accepted exactly where they could be listed and `urlmd5` and
/// `playcount` are among them, whatever else is there and in whatever order.
pub open spec fn columns_accepted(columns: Result<Vec<String>, ColumnsFailure>) -> bool {
    columns matches Ok(names) && listed(names@, "urlmd5"@) && listed(names@, "playcount"@)
}

/// What is said of columns that are not accepted.
pub open spec fn columns_message(columns: Result<Vec<String>, ColumnsFailure>) -> Seq<char> {
    match columns {
        Ok(names) => if listed(names@, "urlmd5"@) {
            "tracks_persistent.playcount column is unavailable"@
        } else {
            "tracks_persistent.urlmd5 column is unavailable"@
        },
        Err(ColumnsFailure::Prepare(error)) => "cannot inspect tracks_persistent columns: "@
            + error@,
        Err(ColumnsFailure::Query(error)) => "cannot read tracks_persistent columns: "@ + error@,
        Err(ColumnsFailure::Decode(error)) => "cannot decode tracks_persistent columns: "@ + error@,
    }
}

/// The columns of the table are accepted if and only if they could be listed and both
/// that are read are among them; otherwise the first that is missing is named.
pub proof fn law_columns_that_are_read_suffice(
    columns: Result<Vec<String>, ColumnsFailure>,
    valid: Result<(), String>,
)
    requires
        call_ensures(validate_tracks_persistent_columns, (columns,), valid),
    ensures
        valid is Ok <==> columns_accepted(columns),
        valid is Ok <==> {
            &&& columns matches Ok(names)
            &&& exists|i: int| 0 <= i < names@.len() && (#[trigger] names@[i])@ == "urlmd5"@
            &&& exists|i: int| 0 <= i < names@.len() && (#[trigger] names@[i])@ == "playcount"@
        },
        valid matches Err(message) ==> message@ == columns_message(columns),
{
    if let Ok(names) = columns {
        lemma_listed(names@, "urlmd5"@);
        lemma_listed(names@, "playcount"@);
    }
}

/// Further columns do no harm: a table that has all columns of an accepted one is
/// accepted.
pub proof fn law_further_columns_do_no_harm(
    names: Vec<String>,
    more: Vec<String>,
    valid: Result<(), String>,
    still: Result<(), String>,
)
    requires
        call_ensures(
            validate_tracks_persistent_columns,
            (Ok::<Vec<String>, ColumnsFailure>(names),),
            valid,
        ),
        call_ensures(
            validate_tracks_persistent_columns,
            (Ok::<Vec<String>, ColumnsFailure>(more),),
            still,
        ),
        forall|name: Seq<char>| #[trigger] listed(names@, name) ==> listed(more@, name),
    ensures
        valid is Ok ==> still is Ok,
{
    law_columns_that_are_read_suffice(Ok(names), valid);
    law_columns_that_are_read_suffice(Ok(more), still);
}

/// The table is accepted if and only if it is known to exist.
pub proof fn law_tables_must_exist(answer: Result<bool, String>, valid: Result<(), String>)
    requires
        call_ensures(validate_tracks_persistent_table, (answer,), valid),
    ensures
        valid is Ok <==> answer == Ok::<bool, String>((true)),
        valid matches Err(message) ==> message@ == (match answer {
            Ok(_) => "tracks_persistent table is unavailable"@,
            Err(error) => "cannot inspect tracks_persistent schema: "@ + error@,
        }),
{
}

/// A failure to open the database is told with what the database said.
pub proof fn law_open_failures_are_told(failure: OpenFailure, message: String)
    requires
        call_ensures(describe_open_failure, (failure,), message),
    ensures
        message@ == (match failure {
            OpenFailure::Open(error) => "cannot open Lyrion persist database read-only: "@ + error@,
            OpenFailure::BusyTimeout(error) => "cannot set SQLite busy timeout: "@ + error@,
            OpenFailure::Begin(error) => "cannot begin read-only SQLite snapshot: "@ + error@,
        }),
{
}

/// The artifact at `i` is of a kind.
pub open spec fn artifact_at(
    artifacts: Seq<ArtifactDescriptor>,
    kind: Seq<char>,
    i: int,
) -> bool {
    0 <= i < artifacts.len() && artifacts[i].kind@ == kind
}

/// The resource at `i` is of a kind.
pub open spec fn resource_at(
    resources: Seq<ResourceDescriptor>,
    kind: Seq<char>,
    i: int,
) -> bool {
    0 <= i < resources.len() && resources[i].kind@ == kind
}

/// `artifact` is the only one of a kind.
pub open spec fn only_artifact(
    artifacts: Seq<ArtifactDescriptor>,
    kind: Seq<char>,
    artifact: ArtifactDescriptor,
) -> bool {
    exists|i: int| #[trigger]
        artifact_at(artifacts, kind, i) && artifacts[i] == artifact && forall|j: int| #[trigger]
            artifact_at(artifacts, kind, j) ==> j == i
}

/// `resource` is the only one of a kind.
pub open spec fn only_resource(
    resources: Seq<ResourceDescriptor>,
    kind: Seq<char>,
    resource: ResourceDescriptor,
) -> bool {
    exists|i: int| #[trigger]
        resource_at(resources, kind, i) && resources[i] == resource && forall|j: int| #[trigger]
            resource_at(resources, kind, j) ==> j == i
}

spec fn item_at<T: Kinded>(items: Seq<T>, kind: Seq<char>, i: int) -> bool {
    0 <= i < items.len() && items[i].kind_text() == kind
}

proof fn lemma_of_kind<T: Kinded>(items: Seq<T>, kind: Seq<char>)
    ensures
        of_kind(items, kind).len() == 0 <==> forall|i: int| !#[trigger] item_at(items, kind, i),
        of_kind(items, kind).len() == 1 ==> exists|i: int| #[trigger]
            item_at(items, kind, i) && items[i] == of_kind(items, kind)[0] && forall|j: int|
                #[trigger] item_at(items, kind, j) ==> j == i,
        of_kind(items, kind).len() > 1 ==> exists|i: int, j: int|
            i < j && #[trigger] item_at(items, kind, i) && #[trigger] item_at(items, kind, j),
    decreases items.len(),
{
    reveal(Seq::filter);
    if items.len() > 0 {
        let shorter = items.drop_last();
        let last = items.len() - 1;
        lemma_of_kind(shorter, kind);
        assert forall|i: int| #[trigger] item_at(items, kind, i) <==> item_at(shorter, kind, i) || (i
            == last && item_at(items, kind, last)) by {}
        if item_at(items, kind, last) {
            assert(of_kind(items, kind) == of_kind(shorter, kind).push(items.last()));
            if of_kind(shorter, kind).len() == 0 {
                assert forall|j: int| #[trigger] item_at(items, kind, j) implies j == last by {
                    assert(!item_at(shorter, kind, j));
                }
            } else {
                let i = choose|i: int| #[trigger] item_at(shorter, kind, i);
                assert(item_at(items, kind, i));
            }
        } else {
            assert(of_kind(items, kind) == of_kind(shorter, kind));
            if of_kind(shorter, kind).len() == 1 {
                let i = choose|i: int| #[trigger]
                    item_at(shorter, kind, i) && shorter[i] == of_kind(shorter, kind)[0] && forall|
                        j: int,
                    | #[trigger]
                        item_at(shorter, kind, j) ==> j == i;
                assert(item_at(items, kind, i) && items[i] == of_kind(items, kind)[0]);
            } else if of_kind(shorter, kind).len() > 1 {
                let (i, j) = choose|i: int, j: int|
                    i < j && #[trigger] item_at(shorter, kind, i) && #[trigger] item_at(
                        shorter,
                        kind,
                        j,
                    );
                assert(item_at(items, kind, i) && item_at(items, kind, j));
            } else {
                assert forall|i: int| !#[trigger] item_at(items, kind, i) by {
                    assert(!item_at(shorter, kind, i));
                }
            }
        }
    }
}

/// How many artifacts of a kind there are, by their places.
pub proof fn lemma_artifacts(artifacts: Seq<ArtifactDescriptor>, kind: Seq<char>)
    ensures
        of_kind(artifacts, kind).len() == 0 <==> forall|i: int|
            !#[trigger] artifact_at(artifacts, kind, i),
        of_kind(artifacts, kind).len() == 1 ==> only_artifact(
            artifacts,
            kind,
            of_kind(artifacts, kind)[0],
        ),
        of_kind(artifacts, kind).len() > 1 ==> exists|i: int, j: int|
            i < j && #[trigger] artifact_at(artifacts, kind, i) && #[trigger] artifact_at(
                artifacts,
                kind,
                j,
            ),
{
    lemma_of_kind(artifacts, kind);
    assert forall|i: int| #[trigger] item_at(artifacts, kind, i) == artifact_at(
        artifacts,
        kind,
        i,
    ) by {}
    assert forall|i: int| #[trigger] artifact_at(artifacts, kind, i) == item_at(
        artifacts,
        kind,
        i,
    ) by {}
}

/// How many resources of a kind there are, by their places.
pub proof fn lemma_resources(resources: Seq<ResourceDescriptor>, kind: Seq<char>)
    ensures
        of_kind(resources, kind).len() == 0 <==> forall|i: int|
            !#[trigger] resource_at(resources, kind, i),
        of_kind(resources, kind).len() == 1 ==> only_resource(
            resources,
            kind,
            of_kind(resources, kind)[0],
        ),
        of_kind(resources, kind).len() > 1 ==> exists|i: int, j: int|
            i < j && #[trigger] resource_at(resources, kind, i) && #[trigger] resource_at(
                resources,
                kind,
                j,
            ),
{
    lemma_of_kind(resources, kind);
    assert forall|i: int| #[trigger] item_at(resources, kind, i) == resource_at(
        resources,
        kind,
        i,
    ) by {}
    assert forall|i: int| #[trigger] resource_at(resources, kind, i) == item_at(
        resources,
        kind,
        i,
    ) by {}
}

/// What is said of a list without exactly one artifact of a kind.
pub open spec fn artifact_message(
    artifacts: Seq<ArtifactDescriptor>,
    kind: Seq<char>,
) -> Seq<char> {
    if forall|i: int| !#[trigger] artifact_at(artifacts, kind, i) {
        "missing required "@ + kind + " artifact"@
    } else {
        "multiple "@ + kind + " artifacts are not allowed"@
    }
}

/// What is said of a list without exactly one read-only resource of a kind.
pub open spec fn resource_message(
    resources: Seq<ResourceDescriptor>,
    kind: Seq<char>,
) -> Seq<char> {
    if forall|i: int| !#[trigger] resource_at(resources, kind, i) {
        "missing required "@ + kind + " resource"@
    } else if exists|resource: ResourceDescriptor| #[trigger]
        only_resource(resources, kind, resource) {
        kind + " resource must be read_only"@
    } else {
        "multiple "@ + kind + " resources are not allowed"@
    }
}

/// The artifact that is found is the only one of its kind; where there is none, or
/// more than one, that is said.
pub proof fn law_the_only_artifact_is_found(
    artifacts: &[ArtifactDescriptor],
    kind: &str,
    required: Result<&ArtifactDescriptor, String>,
)
    requires
        call_ensures(required_artifact, (artifacts, kind), required),
    ensures
        required matches Ok(artifact) ==> only_artifact(artifacts@, kind@, *artifact),
        required matches Err(message) ==> {
            &&& forall|artifact: ArtifactDescriptor|
                !#[trigger] only_artifact(artifacts@, kind@, artifact)
            &&& message@ == artifact_message(artifacts@, kind@)
        },
{
    lemma_artifacts(artifacts@, kind@);
    if let Err(message) = required {
        assert forall|artifact: ArtifactDescriptor|
            !#[trigger] only_artifact(artifacts@, kind@, artifact) by {}
    }
}

/// The resource that is found is the only one of its kind, and read-only; otherwise
/// what is wrong is said.
pub proof fn law_the_only_read_only_resource_is_found(
    resources: &[ResourceDescriptor],
    kind: &str,
    required: Result<&ResourceDescriptor, String>,
)
    requires
        call_ensures(required_read_only_resource, (resources, kind), required),
    ensures
        required matches Ok(resource) ==> only_resource(resources@, kind@, *resource)
            && resource.access is ReadOnly,
        required matches Err(message) ==> {
            &&& forall|resource: ResourceDescriptor| #[trigger]
                only_resource(resources@, kind@, resource) ==> !(resource.access is ReadOnly)
            &&& message@ == resource_message(resources@, kind@)
        },
{
    lemma_resources(resources@, kind@);
}

/// Bytes are accepted, as they are, exactly where the announced digest spells theirs.
pub proof fn law_announced_digests_are_held_to(
    artifact: ArtifactDescriptor,
    bytes: Vec<u8>,
    digest: &[u8],
    accepted: Result<Vec<u8>, String>,
)
    requires
        call_ensures(accept_digest, (&artifact, bytes, digest), accepted),
    ensures
        accepted is Ok <==> spells(artifact.sha256@, digest@),
        accepted matches Ok(same) ==> same == bytes,
        accepted matches Err(message) ==> message@ == artifact.kind@
            + " artifact SHA-256 mismatch"@,
{
    lemma_spells(artifact.sha256@, digest@);
}

/// What was read for an artifact is good, and handed on as it is, exactly where
/// reading went well and the announced digest spells the SHA-256 of what was read.
pub proof fn law_artifacts_are_what_was_announced(
    artifact: ArtifactDescriptor,
    read: Result<Vec<u8>, String>,
    verified: Result<Vec<u8>, String>,
)
    requires
        call_ensures(verified_artifact_bytes, (&artifact, read), verified),
    ensures
        verified is Ok <==> (read matches Ok(bytes) && spells(artifact.sha256@, sha256(bytes@))),
        verified matches Ok(same) ==> read == Ok::<Vec<u8>, String>(same),
        verified matches Err(message) ==> message@ == match read {
            Ok(_) => artifact.kind@ + " artifact SHA-256 mismatch"@,
            Err(error) => "cannot read "@ + artifact.kind@ + " artifact: "@ + error@,
        },
{
    if let Ok(bytes) = read {
        lemma_spells(artifact.sha256@, sha256(bytes@));
    }
}

/// `prefix` is the first sixteen characters of `digest`, or all where it is shorter.
pub open spec fn heads(prefix: Seq<char>, digest: Seq<char>) -> bool {
    &&& prefix.len() == if digest.len() < 16 {
        digest.len()
    } else {
        16
    }
    &&& forall|i: int| 0 <= i < prefix.len() ==> #[trigger] prefix[i] == digest[i]
}

/// What the prefix of a digest is.
pub proof fn lemma_heads(digest: Seq<char>)
    ensures
        heads(digest_prefix(digest), digest),
{
}

/// A snapshot is identified by the head of the digest and the number of candidates.
pub open spec fn identifies(identifier: Seq<char>, prefix: Seq<char>, eligible: nat) -> bool {
    exists|digits: Seq<char>| #[trigger]
        writes(digits, eligible) && identifier == "sqlite:"@ + prefix + ":"@ + digits
}

/// The head of a digest is its first sixteen characters.
pub proof fn law_digests_are_cut_at_sixteen(digest: &str, prefix: String)
    requires
        call_ensures(leading_digits, (digest,), prefix),
    ensures
        heads(prefix@, digest@),
{
    lemma_heads(digest@);
}

/// A snapshot is named after its artifact and the number of its candidates.
pub proof fn law_snapshots_are_named_after_their_artifact(
    prefix: &str,
    eligible: usize,
    identifier: String,
)
    requires
        call_ensures(identify_snapshot, (prefix, eligible), identifier),
    ensures
        identifies(identifier@, prefix@, eligible as nat),
{
    lemma_writes(eligible as nat);
}

/// A list of eligible candidates can be used: it has the known schema, and every
/// candidate has an identifier that is more than white space.
pub open spec fn identities_accepted(identities: IdentityArtifact) -> bool {
    &&& identities.schema_version == 1
    &&& identities.schema_identity@ == "eligible-candidate-identities-v1"@
    &&& forall|i: int|
        0 <= i < identities.candidates@.len() ==> written(
            (#[trigger] identities.candidates@[i]).candidate_id@,
        )
}

/// What is said of a list that cannot be used.
pub open spec fn identities_message(identities: IdentityArtifact) -> Seq<char> {
    if identities.schema_version == 1 && identities.schema_identity@
        == "eligible-candidate-identities-v1"@ {
        "candidate-identity artifact contains an empty candidate ID"@
    } else {
        "unsupported candidate-identity artifact schema"@
    }
}

/// A list of eligible candidates is accepted if and only if it can be used.
pub proof fn law_identities_need_a_schema_and_names(
    identities: IdentityArtifact,
    valid: Result<(), String>,
)
    requires
        call_ensures(validate_identities, (&identities,), valid),
    ensures
        valid is Ok <==> identities_accepted(identities),
        valid matches Err(message) ==> message@ == identities_message(identities),
{
    if valid is Err && identities.schema_version == 1 && identities.schema_identity@
        == "eligible-candidate-identities-v1"@ {
        let i = choose|i: int|
            0 <= i < identities.candidates@.len() && crate::text::blank(
                (#[trigger] identities.candidates@[i]).candidate_id@,
            );
        assert(!written(identities.candidates@[i].candidate_id@));
    }
}

/// A digest is used as it is, and left out only where it is absent or nothing but
/// white space.
pub proof fn law_digests_are_used_as_they_are(urlmd5: Option<String>, found: Option<&String>)
    requires
        call_ensures(usable_urlmd5, (&urlmd5,), found),
    ensures
        found is Some <==> (urlmd5 matches Some(text) && written(text@)),
        found matches Some(text) ==> urlmd5 == Some(*text),
{
    lemma_digest_of(urlmd5);
}

/// The candidates that have a digest to be looked up by.
pub open spec fn with_digest(candidates: Seq<CandidateIdentity>) -> Seq<CandidateIdentity> {
    candidates.filter(|candidate: CandidateIdentity| digest_of(candidate.lms_urlmd5) is Some)
}

/// The usable digests are those of the candidates that have one.
pub proof fn lemma_with_digest(candidates: Seq<CandidateIdentity>)
    ensures
        usable_urlmd5s(candidates).len() == with_digest(candidates).len(),
        forall|i: int|
            0 <= i < with_digest(candidates).len() ==> digest_of(
                (#[trigger] with_digest(candidates)[i]).lms_urlmd5,
            ) == Some(usable_urlmd5s(candidates)[i]),
    decreases candidates.len(),
{
    reveal(Seq::filter);
    if candidates.len() > 0 {
        lemma_with_digest(candidates.drop_last());
        lemma_digest_of(candidates.last().lms_urlmd5);
    }
}

/// The digests that are looked up are those of all candidates that have one, each as
/// it is and in their order.
pub proof fn law_every_digest_is_collected(
    candidates: Vec<CandidateIdentity>,
    urlmd5s: Vec<String>,
)
    requires
        call_ensures(collect_urlmd5s, (&candidates,), urlmd5s),
    ensures
        urlmd5s@.len() == with_digest(candidates@).len(),
        forall|i: int|
            0 <= i < urlmd5s@.len() ==> digest_of(
                (#[trigger] with_digest(candidates@)[i]).lms_urlmd5,
            ) == Some(urlmd5s@[i]@),
        forall|i: int|
            0 <= i < candidates@.len() && digest_of((#[trigger] candidates@[i]).lms_urlmd5) is Some
                ==> listed(urlmd5s@, digest_of(candidates@[i].lms_urlmd5)->0),
{
    lemma_with_digest(candidates@);
    assert forall|i: int| 0 <= i < urlmd5s@.len() implies digest_of(
        (#[trigger] with_digest(candidates@)[i]).lms_urlmd5,
    ) == Some(urlmd5s@[i]@) by {
        assert(texts(urlmd5s@)[i] == urlmd5s@[i]@);
    }
    assert forall|i: int|
        0 <= i < candidates@.len() && digest_of(
            (#[trigger] candidates@[i]).lms_urlmd5,
        ) is Some implies listed(urlmd5s@, digest_of(candidates@[i].lms_urlmd5)->0) by {
        crate::laws::scoring::lemma_usable_listed(candidates@, i);
        lemma_digest_of(candidates@[i].lms_urlmd5);
        lemma_listed(urlmd5s@, digest_of(candidates@[i].lms_urlmd5)->0);
    }
}

proof fn lemma_known(candidates: Seq<CandidateIdentity>, counts: Map<Seq<char>, u64>)
    ensures
        known(candidates, counts) == candidates.filter(
            |candidate: CandidateIdentity|
                digest_of(candidate.lms_urlmd5) matches Some(digest) && counts.contains_key(digest),
        ).len(),
    decreases candidates.len(),
{
    reveal(Seq::filter);
    if candidates.len() > 0 {
        lemma_known(candidates.drop_last(), counts);
        lemma_digest_of(candidates.last().lms_urlmd5);
    }
}

/// A population that tallies its candidates counts them all.
pub proof fn lemma_counts_all(
    population: Population,
    candidates: Seq<CandidateIdentity>,
    counts: Map<Seq<char>, u64>,
)
    requires
        population.tallies(candidates, counts),
    ensures
        counts_all(population, candidates, counts),
{
    let plays = Seq::new(
        candidates.len(),
        |i: int| plays_looked_up(counts, candidates[i].lms_urlmd5),
    );
    assert forall|i: int| 0 <= i < candidates.len() implies eligible_plays(candidates, counts)[i]
        == #[trigger] plays[i] by {
        lemma_digest_of(candidates[i].lms_urlmd5);
    }
    assert(eligible_plays(candidates, counts) =~= plays);
    lemma_known(candidates, counts);
    lemma_equal_to(plays, 0);
    lemma_tallied(population.distribution@, plays);
}

/// A population counts every eligible candidate once, by the plays that were looked
/// up for its digest as it is, and by zero where there are none.
pub proof fn law_populations_count_every_candidate(
    candidates: Vec<CandidateIdentity>,
    counts: StringHashMap<u64>,
    population: Population,
)
    requires
        call_ensures(tally, (&candidates, &counts), population),
    ensures
        counts_all(population, candidates@, counts@),
{
    lemma_counts_all(population, candidates@, counts@);
}

/// One more eligible candidate is counted once, at the plays that were looked up for
/// its digest as it is, or at zero; all else stays as it was.
pub proof fn law_one_more_candidate_counts_once(
    candidates: Vec<CandidateIdentity>,
    more: Vec<CandidateIdentity>,
    counts: StringHashMap<u64>,
    before: Population,
    after: Population,
)
    requires
        call_ensures(tally, (&candidates, &counts), before),
        call_ensures(tally, (&more, &counts), after),
        more@.len() == candidates@.len() + 1,
        more@.drop_last() == candidates@,
    ensures
        ({
            let urlmd5 = more@.last().lms_urlmd5;
            let known = urlmd5 is Some && (exists|i: int|
                0 <= i < urlmd5->0@.len() && !crate::text::white_space(
                    #[trigger] urlmd5->0@[i],
                )) && counts@.contains_key(urlmd5->0@);
            let plays = if known {
                counts@[urlmd5->0@]
            } else {
                0
            };
            &&& after.eligible_count == before.eligible_count + 1
            &&& after.known_count == before.known_count + if known {
                1int
            } else {
                0int
            }
            &&& after.zero_count == before.zero_count + if plays == 0 {
                1int
            } else {
                0int
            }
            &&& after.distribution@.contains_key(plays)
            &&& after.distribution@[plays] == if before.distribution@.contains_key(plays) {
                before.distribution@[plays] + 1
            } else {
                1
            }
            &&& forall|count: u64| #[trigger]
                after.distribution@.contains_key(count) && count != plays
                    ==> before.distribution@.contains_key(count) && after.distribution@[count]
                    == before.distribution@[count]
            &&& forall|count: u64| #[trigger]
                before.distribution@.contains_key(count) ==> after.distribution@.contains_key(
                    count,
                )
        }),
{
    let urlmd5 = more@.last().lms_urlmd5;
    lemma_digest_of(urlmd5);
    let plays = crate::population::candidate_plays(more@.last(), counts@);
    let earlier = eligible_plays(candidates@, counts@);
    let later = eligible_plays(more@, counts@);
    assert(later =~= earlier.push(plays)) by {
        assert forall|i: int| 0 <= i < candidates@.len() implies #[trigger] later[i]
            == earlier[i] by {
            assert(more@.drop_last()[i] == more@[i]);
        }
    }
    assert(earlier.push(plays).drop_last() =~= earlier);
    assert forall|count: u64| #[trigger] later.contains(count) <==> earlier.contains(count) || count
        == plays by {
        lemma_occurrences(earlier, count);
        lemma_occurrences(later, count);
    }
    lemma_occurrences(earlier, plays);
    lemma_occurrences(later, plays);
}

/// An empty list of candidates comes to nothing.
pub proof fn law_no_candidates_come_to_nothing(
    candidates: Vec<CandidateIdentity>,
    counts: StringHashMap<u64>,
    population: Population,
)
    requires
        call_ensures(tally, (&candidates, &counts), population),
        candidates@.len() == 0,
    ensures
        population.distribution@ == Map::<u64, u64>::empty(),
        population.eligible_count == 0,
        population.known_count == 0,
        population.zero_count == 0,
{
    assert(population.distribution@ =~= Map::<u64, u64>::empty());
}

/// A count that was not looked up is taken for zero.
pub proof fn law_unknown_counts_are_zero(counts: StringHashMap<u64>, urlmd5: &str, count: u64)
    requires
        call_ensures(known_or_zero, (&counts, urlmd5), count),
    ensures
        counts@.contains_key(urlmd5@) ==> count == counts@[urlmd5@],
        !counts@.contains_key(urlmd5@) ==> count == 0,
{
}

} // verus!
