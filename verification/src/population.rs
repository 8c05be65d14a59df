//! The eligible candidates as a population of play counts.

use std::collections::BTreeMap;
use vstd::hash_map::StringHashMap;
use vstd::prelude::*;

use crate::counts::{count_or_zero, known_or_zero};
use crate::protocol::{optional_text, CandidateIdentity, IdentityArtifact};
use crate::ranking::{
    frequency, histogram, lemma_histogram_frequency, lemma_histogram_total, lemma_occurrences,
    occurrences, record, total,
};
use crate::text::{blank, is_blank, same_text, texts};

verus! {

/// The kind of artifact that lists the eligible candidates, and its schema.
pub const IDENTITY_ARTIFACT: &'static str = "eligible-candidate-identities-v1";

/// The digest that the database may know a candidate by: none where it is blank.
pub open spec fn usable(urlmd5: Option<Seq<char>>) -> Option<Seq<char>> {
    match urlmd5 {
        Some(text) => if blank(text) {
            None
        } else {
            Some(text)
        },
        None => None,
    }
}

/// The digest that the database may know a candidate by.
pub fn usable_urlmd5(urlmd5: &Option<String>) -> (found: Option<&String>)
    ensures
        match found {
            Some(text) => usable(optional_text(*urlmd5)) == Some(text@) && *urlmd5 == Some(*text),
            None => usable(optional_text(*urlmd5)) is None,
        },
{
    match urlmd5 {
        Some(text) => if is_blank(text.as_str()) {
            None
        } else {
            Some(text)
        },
        None => None,
    }
}

/// The usable digests of the eligible candidates, in their order.
pub open spec fn usable_urlmd5s(candidates: Seq<CandidateIdentity>) -> Seq<Seq<char>>
    decreases candidates.len(),
{
    if candidates.len() == 0 {
        Seq::empty()
    } else {
        let earlier = usable_urlmd5s(candidates.drop_last());
        match usable(optional_text(candidates.last().lms_urlmd5)) {
            Some(urlmd5) => earlier.push(urlmd5),
            None => earlier,
        }
    }
}

/// How often a candidate was played: never, where the counts do not know it.
pub open spec fn candidate_plays(
    candidate: CandidateIdentity,
    counts: Map<Seq<char>, u64>,
) -> u64 {
    match usable(optional_text(candidate.lms_urlmd5)) {
        Some(urlmd5) => count_or_zero(counts, urlmd5),
        None => 0,
    }
}

/// How often each eligible candidate was played.
pub open spec fn eligible_plays(
    candidates: Seq<CandidateIdentity>,
    counts: Map<Seq<char>, u64>,
) -> Seq<u64> {
    Seq::new(candidates.len(), |i: int| candidate_plays(candidates[i], counts))
}

/// How many eligible candidates the counts know.
pub open spec fn known(candidates: Seq<CandidateIdentity>, counts: Map<Seq<char>, u64>) -> nat
    decreases candidates.len(),
{
    if candidates.len() == 0 {
        0
    } else {
        known(candidates.drop_last(), counts) + match usable(
            optional_text(candidates.last().lms_urlmd5),
        ) {
            Some(urlmd5) => if counts.contains_key(urlmd5) {
                1nat
            } else {
                0nat
            },
            None => 0nat,
        }
    }
}

/// Why a list of eligible candidates is refused.
pub open spec fn identity_refusal(identities: IdentityArtifact) -> Option<Seq<char>> {
    if identities.schema_version != 1 || identities.schema_identity@ != IDENTITY_ARTIFACT@ {
        Some("unsupported candidate-identity artifact schema"@)
    } else if exists|i: int|
        0 <= i < identities.candidates@.len() && blank(
            (#[trigger] identities.candidates@[i]).candidate_id@,
        ) {
        Some("candidate-identity artifact contains an empty candidate ID"@)
    } else {
        None
    }
}

/// Accepts a list of eligible candidates of the known schema that all have an identifier.
pub fn validate_identities(identities: &IdentityArtifact) -> (valid: Result<(), String>)
    ensures
        match valid {
            Ok(_) => identity_refusal(*identities) is None,
            Err(message) => identity_refusal(*identities) == Some(message@),
        },
{
    if identities.schema_version != 1 || !same_text(
        identities.schema_identity.as_str(),
        IDENTITY_ARTIFACT,
    ) {
        return Err("unsupported candidate-identity artifact schema".to_owned());
    }
    let mut i: usize = 0;
    while i < identities.candidates.len()
        invariant
            i <= identities.candidates@.len(),
            identities.schema_version == 1,
            identities.schema_identity@ == IDENTITY_ARTIFACT@,
            forall|j: int|
                0 <= j < i ==> !blank((#[trigger] identities.candidates@[j]).candidate_id@),
        decreases identities.candidates@.len() - i,
    {
        if is_blank(identities.candidates[i].candidate_id.as_str()) {
            assert(blank(identities.candidates@[i as int].candidate_id@));
            return Err("candidate-identity artifact contains an empty candidate ID".to_owned());
        }
        i = i + 1;
    }
    Ok(())
}

/// The usable digests of the eligible candidates.
pub fn collect_urlmd5s(candidates: &Vec<CandidateIdentity>) -> (urlmd5s: Vec<String>)
    ensures
        texts(urlmd5s@) == usable_urlmd5s(candidates@),
        urlmd5s@.len() <= candidates@.len(),
{
    let mut urlmd5s: Vec<String> = Vec::new();
    let mut i: usize = 0;
    assert(texts(urlmd5s@) =~= usable_urlmd5s(candidates@.take(0)));
    while i < candidates.len()
        invariant
            i <= candidates@.len(),
            urlmd5s@.len() <= i,
            texts(urlmd5s@) == usable_urlmd5s(candidates@.take(i as int)),
        decreases candidates@.len() - i,
    {
        let ghost before = urlmd5s@;
        if let Some(urlmd5) = usable_urlmd5(&candidates[i].lms_urlmd5) {
            urlmd5s.push(urlmd5.clone());
            assert(texts(urlmd5s@) =~= texts(before).push(urlmd5@));
        }
        i = i + 1;
        assert(candidates@.take(i as int).drop_last() =~= candidates@.take(i - 1));
    }
    assert(candidates@.take(i as int) =~= candidates@);
    urlmd5s
}

/// The eligible candidates, counted by how often they were played.
pub struct Population {
    pub distribution: BTreeMap<u64, u64>,
    pub eligible_count: u64,
    pub known_count: u64,
    pub zero_count: u64,
}

impl Population {
    /// The figures agree with each other.
    pub open spec fn wf(self) -> bool {
        &&& total(self.distribution@) == self.eligible_count
        &&& self.zero_count == frequency(self.distribution@, 0)
        &&& self.known_count <= self.eligible_count
    }

    /// This is the population of `candidates`, played as `counts` says.
    pub open spec fn tallies(
        self,
        candidates: Seq<CandidateIdentity>,
        counts: Map<Seq<char>, u64>,
    ) -> bool {
        &&& self.distribution@ == histogram(eligible_plays(candidates, counts))
        &&& self.eligible_count == candidates.len()
        &&& self.known_count == known(candidates, counts)
        &&& self.zero_count == occurrences(eligible_plays(candidates, counts), 0)
    }
}

/// Counts the eligible candidates by how often they were played.
pub fn tally(candidates: &Vec<CandidateIdentity>, counts: &StringHashMap<u64>) -> (population:
    Population)
    ensures
        population.tallies(candidates@, counts@),
        population.wf(),
{
    let mut distribution: BTreeMap<u64, u64> = BTreeMap::new();
    let mut known_count: u64 = 0;
    let mut zero_count: u64 = 0;
    let mut i: usize = 0;
    let ghost mut done: Seq<u64> = Seq::empty();
    assert(distribution@ =~= histogram(done));
    while i < candidates.len()
        invariant
            i <= candidates@.len(),
            done == eligible_plays(candidates@.take(i as int), counts@),
            distribution@ == histogram(done),
            known_count == known(candidates@.take(i as int), counts@),
            known_count <= i,
            zero_count == occurrences(done, 0),
        decreases candidates@.len() - i,
    {
        let ghost earlier = candidates@.take(i as int);
        let ghost longer = candidates@.take(i + 1);
        assert(longer.drop_last() =~= earlier);
        let count = match usable_urlmd5(&candidates[i].lms_urlmd5) {
            Some(urlmd5) => {
                if counts.contains_key(urlmd5.as_str()) {
                    known_count = known_count + 1;
                }
                known_or_zero(counts, urlmd5.as_str())
            },
            None => 0,
        };
        proof {
            lemma_occurrences(done, 0);
            assert(done.push(count).drop_last() =~= done);
            assert(eligible_plays(longer, counts@) =~= done.push(count));
        }
        if count == 0 {
            zero_count = zero_count + 1;
        }
        record(&mut distribution, count, Ghost(done));
        proof {
            done = done.push(count);
        }
        i = i + 1;
    }
    assert(candidates@.take(i as int) =~= candidates@);
    proof {
        lemma_histogram_total(done);
        lemma_histogram_frequency(done, 0);
    }
    Population { distribution, eligible_count: candidates.len() as u64, known_count, zero_count }
}

} // verus!
