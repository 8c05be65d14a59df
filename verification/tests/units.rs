use std::collections::{BTreeMap, BTreeSet};

use bliss_guidance_playcounts::artifact::{
    accept_digest, hex_text, identify_snapshot, leading_digits, required_artifact,
    required_read_only_resource, verified_artifact_bytes,
};
use bliss_guidance_playcounts::counts::{
    batch_count, known_or_zero, query_counts, CountLookup, CountRow, CountStep, QueryFailure,
    SQLITE_BATCH_LIMIT,
};
use bliss_guidance_playcounts::database::{
    describe_open_failure, validate_tracks_persistent_columns, validate_tracks_persistent_table,
    ColumnsFailure, OpenFailure,
};
use bliss_guidance_playcounts::order::sorted_unique;
use bliss_guidance_playcounts::population::{
    collect_urlmd5s, tally, usable_urlmd5, validate_identities,
};
use bliss_guidance_playcounts::protocol::{
    ArtifactDescriptor, CandidateIdentity, IdentityArtifact, ResourceAccess, ResourceDescriptor,
};
use bliss_guidance_playcounts::ranking::{count_below, percentile, Percentile};
use bliss_guidance_playcounts::text;
use bliss_guidance_playcounts::text::{decimal_text, is_blank, same_text};

fn strings(items: &[&str]) -> Vec<String> {
    items.iter().map(|item| item.to_string()).collect()
}

#[test]
fn blankness_is_what_trimming_leaves() {
    for code in 0..=0x10ffffu32 {
        if let Some(c) = char::from_u32(code) {
            let alone = c.to_string();
            assert_eq!(is_blank(&alone), alone.trim().is_empty(), "{code:x}");
        }
    }
    assert!(is_blank(""));
    assert!(is_blank(" \t\u{3000}\n"));
    assert!(!is_blank(" a "));
}

#[test]
fn texts_are_compared_by_their_characters() {
    assert!(same_text("", ""));
    assert!(same_text("naïve", "naïve"));
    assert!(!same_text("a", "b"));
    assert!(!same_text("a", "aa"));
    assert_eq!(text::concat("a", "b"), "ab");
    assert_eq!(text::concat3("a", "", "c"), "ac");
}

#[test]
fn numbers_are_written_in_decimal() {
    for n in [0, 7, 10, 900, 1_234_567_890, u64::MAX] {
        assert_eq!(decimal_text(n), n.to_string());
    }
}

#[test]
fn distinct_texts_come_in_byte_order() {
    let items = strings(&["b", "", "a", "é", "b", "ab", "Z", "\u{10000}", "\u{ffff}", "a"]);
    let set: BTreeSet<String> = items.iter().cloned().collect();
    let expected: Vec<String> = set.into_iter().collect();
    assert_eq!(sorted_unique(&items), expected);
    assert_eq!(sorted_unique(&[]), Vec::<String>::new());
}

#[test]
fn batches_round_up() {
    assert_eq!(SQLITE_BATCH_LIMIT, 900);
    assert_eq!(batch_count(0), 0);
    assert_eq!(batch_count(1), 1);
    assert_eq!(batch_count(900), 1);
    assert_eq!(batch_count(901), 2);
    assert_eq!(batch_count(1800), 2);
    assert_eq!(batch_count(usize::MAX), (usize::MAX / 900) as u64 + 1);
}

fn fetch(step: CountStep) -> CountLookup {
    match step {
        CountStep::Fetch(lookup) => lookup,
        _ => panic!("expected a query"),
    }
}

fn row(urlmd5: &str, playcount: Option<i64>) -> CountRow {
    CountRow { urlmd5: urlmd5.to_owned(), playcount }
}

#[test]
fn a_lookup_of_nothing_is_done() {
    match query_counts(&[]) {
        CountStep::Done(counts) => assert!(counts.is_empty()),
        _ => panic!("expected no query"),
    }
}

#[test]
fn a_query_names_each_digest_once() {
    let lookup = fetch(query_counts(&strings(&["b", "a", "b"])));
    assert_eq!(
        lookup.query.sql,
        "SELECT urlmd5, playcount FROM tracks_persistent WHERE urlmd5 IN (?,?)"
    );
    assert_eq!(lookup.query.urlmd5s, strings(&["a", "b"]));
    assert!(lookup.later.is_empty());
    match lookup.resume(Ok(vec![row("a", Some(4)), row("b", Some(-1)), row("a", Some(6))])) {
        CountStep::Done(counts) => {
            assert_eq!(counts.get("a"), Some(&6));
            assert_eq!(counts.get("b"), Some(&0));
            assert_eq!(counts.get("c"), None);
            assert_eq!(known_or_zero(&counts, "a"), 6);
            assert_eq!(known_or_zero(&counts, "c"), 0);
        }
        _ => panic!("expected the lookup to be done"),
    }
    match fetch(query_counts(&strings(&["a"]))).resume(Ok(vec![row("a", None)])) {
        CountStep::Done(counts) => assert_eq!(counts.get("a"), Some(&0)),
        _ => panic!("expected the lookup to be done"),
    }
}

#[test]
fn long_lookups_are_sent_in_batches() {
    let items: Vec<String> = (0..1801).map(|i| format!("{i:05}")).collect();
    let mut lookup = fetch(query_counts(&items));
    assert_eq!(lookup.later.len(), 2);
    let mut named = Vec::new();
    let mut sizes = Vec::new();
    loop {
        named.extend(lookup.query.urlmd5s.iter().cloned());
        sizes.push(lookup.query.urlmd5s.len());
        assert_eq!(lookup.query.sql.matches('?').count(), lookup.query.urlmd5s.len());
        let rows = lookup.query.urlmd5s.iter().map(|name| row(name, Some(1))).collect();
        match lookup.resume(Ok(rows)) {
            CountStep::Fetch(next) => lookup = next,
            CountStep::Done(counts) => {
                assert_eq!(counts.len(), 1801);
                break;
            }
            CountStep::Failed(_) => panic!("unexpected failure"),
        }
    }
    assert_eq!(sizes, vec![900, 900, 1]);
    assert_eq!(named, items);
}

#[test]
fn failed_queries_are_put_into_words() {
    for (failure, expected) in [
        (QueryFailure::Prepare("x".to_owned()), "cannot prepare play-count query: x"),
        (QueryFailure::Query("x".to_owned()), "cannot query play counts: x"),
        (QueryFailure::Decode("x".to_owned()), "cannot decode play count: x"),
    ] {
        match fetch(query_counts(&strings(&["a"]))).resume(Err(failure)) {
            CountStep::Failed(message) => assert_eq!(message, expected),
            _ => panic!("expected a failure"),
        }
    }
}

fn artifact(kind: &str, sha256: &str) -> ArtifactDescriptor {
    ArtifactDescriptor {
        kind: kind.to_owned(),
        path: "p".to_owned(),
        sha256: sha256.to_owned(),
    }
}

fn resource(kind: &str, access: ResourceAccess) -> ResourceDescriptor {
    ResourceDescriptor { kind: kind.to_owned(), path: kind.to_owned(), access }
}

#[test]
fn exactly_one_artifact_is_required() {
    let artifacts = [artifact("x", "1"), artifact("k", "2"), artifact("y", "3")];
    assert_eq!(required_artifact(&artifacts, "k").ok().unwrap().sha256, "2");
    assert_eq!(
        required_artifact(&artifacts, "z").err().unwrap(),
        "missing required z artifact"
    );
    let artifacts = [artifact("k", "1"), artifact("k", "2")];
    assert_eq!(
        required_artifact(&artifacts, "k").err().unwrap(),
        "multiple k artifacts are not allowed"
    );
}

#[test]
fn exactly_one_read_only_resource_is_required() {
    let resources = [
        resource("a", ResourceAccess::ReadOnly),
        resource("b", ResourceAccess::Other),
        resource("c", ResourceAccess::ReadOnly),
        resource("c", ResourceAccess::Other),
    ];
    assert_eq!(required_read_only_resource(&resources, "a").ok().unwrap().path, "a");
    assert_eq!(
        required_read_only_resource(&resources, "b").err().unwrap(),
        "b resource must be read_only"
    );
    assert_eq!(
        required_read_only_resource(&resources, "c").err().unwrap(),
        "multiple c resources are not allowed"
    );
    assert_eq!(
        required_read_only_resource(&resources, "d").err().unwrap(),
        "missing required d resource"
    );
}

#[test]
fn artifact_bytes_are_held_to_their_digest() {
    let abc = "ba7816bf8f01cfea414140de5dae2223b00361a396177a9cb410ff61f20015ad";
    assert_eq!(
        verified_artifact_bytes(&artifact("k", abc), Ok(b"abc".to_vec())).unwrap(),
        b"abc"
    );
    assert_eq!(
        verified_artifact_bytes(&artifact("k", abc), Ok(b"abd".to_vec())).unwrap_err(),
        "k artifact SHA-256 mismatch"
    );
    assert_eq!(
        verified_artifact_bytes(&artifact("k", &abc.to_uppercase()), Ok(b"abc".to_vec()))
            .unwrap_err(),
        "k artifact SHA-256 mismatch"
    );
    assert_eq!(
        verified_artifact_bytes(&artifact("k", abc), Err("gone".to_owned())).unwrap_err(),
        "cannot read k artifact: gone"
    );
    assert_eq!(accept_digest(&artifact("k", "0aff"), vec![7], &[0x0a, 0xff]).unwrap(), vec![7]);
    assert!(accept_digest(&artifact("k", "0aff"), vec![7], &[0x0a]).is_err());
}

#[test]
fn digests_are_written_in_lower_case_hexadecimal() {
    assert_eq!(hex_text(&[]), "");
    assert_eq!(hex_text(&[0, 1, 0x9a, 0xbc, 0xde, 0xff]), "00019abcdeff");
    assert_eq!(leading_digits("0123456789abcdef0"), "0123456789abcdef");
    assert_eq!(leading_digits("abc"), "abc");
    assert_eq!(identify_snapshot("abc", 12), "sqlite:abc:12");
}

#[test]
fn failures_to_open_a_snapshot_are_put_into_words() {
    assert_eq!(
        describe_open_failure(OpenFailure::Open("x".to_owned())),
        "cannot open Lyrion persist database read-only: x"
    );
    assert_eq!(
        describe_open_failure(OpenFailure::BusyTimeout("x".to_owned())),
        "cannot set SQLite busy timeout: x"
    );
    assert_eq!(
        describe_open_failure(OpenFailure::Begin("x".to_owned())),
        "cannot begin read-only SQLite snapshot: x"
    );
}

#[test]
fn the_schema_of_the_database_is_checked() {
    assert_eq!(validate_tracks_persistent_table(Ok(true)), Ok(()));
    assert_eq!(
        validate_tracks_persistent_table(Ok(false)).unwrap_err(),
        "tracks_persistent table is unavailable"
    );
    assert_eq!(
        validate_tracks_persistent_table(Err("x".to_owned())).unwrap_err(),
        "cannot inspect tracks_persistent schema: x"
    );
    assert_eq!(
        validate_tracks_persistent_columns(Ok(strings(&["id", "playcount", "urlmd5"]))),
        Ok(())
    );
    assert_eq!(
        validate_tracks_persistent_columns(Ok(strings(&["id"]))).unwrap_err(),
        "tracks_persistent.urlmd5 column is unavailable"
    );
    assert_eq!(
        validate_tracks_persistent_columns(Ok(strings(&["urlmd5"]))).unwrap_err(),
        "tracks_persistent.playcount column is unavailable"
    );
    for (failure, expected) in [
        (
            ColumnsFailure::Prepare("x".to_owned()),
            "cannot inspect tracks_persistent columns: x",
        ),
        (ColumnsFailure::Query("x".to_owned()), "cannot read tracks_persistent columns: x"),
        (ColumnsFailure::Decode("x".to_owned()), "cannot decode tracks_persistent columns: x"),
    ] {
        assert_eq!(validate_tracks_persistent_columns(Err(failure)).unwrap_err(), expected);
    }
}

fn identity(candidate_id: &str, lms_urlmd5: Option<&str>) -> CandidateIdentity {
    CandidateIdentity {
        candidate_id: candidate_id.to_owned(),
        lms_urlmd5: lms_urlmd5.map(str::to_owned),
    }
}

fn identities(version: u8, schema: &str, candidates: Vec<CandidateIdentity>) -> IdentityArtifact {
    IdentityArtifact {
        schema_version: version,
        schema_identity: schema.to_owned(),
        candidates,
    }
}

#[test]
fn identity_artifacts_are_validated() {
    let schema = "eligible-candidate-identities-v1";
    assert_eq!(validate_identities(&identities(1, schema, vec![])), Ok(()));
    assert_eq!(
        validate_identities(&identities(1, schema, vec![identity("a", None)])),
        Ok(())
    );
    for wrong in [identities(2, schema, vec![]), identities(1, "other", vec![])] {
        assert_eq!(
            validate_identities(&wrong).unwrap_err(),
            "unsupported candidate-identity artifact schema"
        );
    }
    assert_eq!(
        validate_identities(&identities(
            1,
            schema,
            vec![identity("a", None), identity(" \t", Some("u"))]
        ))
        .unwrap_err(),
        "candidate-identity artifact contains an empty candidate ID"
    );
}

#[test]
fn blank_digests_are_not_looked_up() {
    let candidates = vec![
        identity("a", Some("u")),
        identity("b", None),
        identity("c", Some(" ")),
        identity("d", Some("u")),
        identity("e", Some(" v ")),
    ];
    assert_eq!(collect_urlmd5s(&candidates), strings(&["u", "u", " v "]));
    assert_eq!(usable_urlmd5(&Some("".to_owned())), None);
}

fn distribution(entries: &[(u64, u64)]) -> BTreeMap<u64, u64> {
    entries.iter().copied().collect()
}

#[test]
fn percentiles_are_average_ranks() {
    // Plays 0, 0, 0, 4, 4, 9.
    let plays = distribution(&[(0, 3), (4, 2), (9, 1)]);
    let at = |count| percentile(&plays, 6, count);
    assert_eq!(at(0), Percentile { below: 0, tied: 2, span: 5 });
    assert_eq!(at(2), Percentile { below: 3, tied: 0, span: 5 });
    assert_eq!(at(4), Percentile { below: 3, tied: 1, span: 5 });
    assert_eq!(at(9), Percentile { below: 5, tied: 0, span: 5 });
    // Beyond every eligible candidate the rank would be six of five.
    assert_eq!(at(10), Percentile { below: 5, tied: 0, span: 5 });
    assert_eq!(at(u64::MAX), Percentile { below: 5, tied: 0, span: 5 });
    assert_eq!(count_below(&plays, 4), 3);
    assert_eq!(count_below(&plays, u64::MAX), 6);
}

#[test]
fn a_lone_candidate_has_percentile_zero() {
    let zero = Percentile { below: 0, tied: 0, span: 1 };
    assert_eq!(percentile(&distribution(&[]), 0, 3), zero);
    assert_eq!(percentile(&distribution(&[(7, 1)]), 1, 7), zero);
    assert_eq!(percentile(&distribution(&[(7, 1)]), 1, 8), zero);
}

#[test]
fn scores_are_bounded_ordered_and_balanced() {
    let plays: [u64; 8] = [5, 0, 3, 3, 9, 0, 3, 100];
    let mut entries = BTreeMap::new();
    for count in plays {
        *entries.entry(count).or_insert(0) += 1;
    }
    let doubled_score = |count: u64| {
        let p = percentile(&entries, 8, count);
        assert_eq!(p.span, 7);
        assert!(2 * p.below + p.tied <= 2 * p.span);
        2 * p.below as i64 + p.tied as i64 - p.span as i64
    };
    assert_eq!(plays.iter().map(|count| doubled_score(*count)).sum::<i64>(), 0);
    assert_eq!(doubled_score(100), 7);
    for count in 0..110u64 {
        assert!(doubled_score(count) <= doubled_score(count + 1));
    }
    assert!(doubled_score(0) < doubled_score(3));
    assert!(doubled_score(3) < doubled_score(5));

    // Tied candidates share the ranks that they stand at in order.
    let mut ordered = plays.to_vec();
    ordered.sort();
    for (rank, count) in ordered.iter().enumerate() {
        let p = percentile(&entries, 8, *count);
        assert!(p.below <= rank as u64 && rank as u64 <= p.below + p.tied);
    }
}

#[test]
fn the_extremes_score_the_bounds() {
    let plays = distribution(&[(2, 1), (5, 3), (7, 1)]);
    assert_eq!(percentile(&plays, 5, 2), Percentile { below: 0, tied: 0, span: 4 });
    assert_eq!(percentile(&plays, 5, 7), Percentile { below: 4, tied: 0, span: 4 });
    // Counts beyond those of the population get them as well.
    let plays = distribution(&[(2, 2), (5, 3)]);
    assert_eq!(percentile(&plays, 5, 1), Percentile { below: 0, tied: 0, span: 4 });
    assert_eq!(percentile(&plays, 5, 0), Percentile { below: 0, tied: 0, span: 4 });
    assert_eq!(percentile(&plays, 5, 6), Percentile { below: 4, tied: 0, span: 4 });
    assert_eq!(percentile(&plays, 5, u64::MAX), Percentile { below: 4, tied: 0, span: 4 });
}

#[test]
fn the_order_of_the_candidates_does_not_matter() {
    let rows = || vec![row("a", Some(3)), row("b", Some(8)), row("c", Some(3))];
    let counts = || match fetch(query_counts(&strings(&["a", "b", "c", "d"]))).resume(Ok(rows())) {
        CountStep::Done(counts) => counts,
        _ => panic!("expected the lookup to be done"),
    };
    let names = [Some("a"), Some("b"), None, Some("c"), Some("d"), Some("b")];
    let candidates: Vec<CandidateIdentity> =
        names.iter().map(|name| identity("x", *name)).collect();
    let reversed: Vec<CandidateIdentity> =
        names.iter().rev().map(|name| identity("x", *name)).collect();
    let population = tally(&candidates, &counts());
    let again = tally(&reversed, &counts());
    assert_eq!(population.distribution, distribution(&[(0, 2), (3, 2), (8, 2)]));
    assert_eq!(population.distribution, again.distribution);
    assert_eq!(population.eligible_count, 6);
    assert_eq!(population.known_count, 4);
    assert_eq!(population.zero_count, 2);
    assert_eq!((again.known_count, again.zero_count), (4, 2));
}

#[test]
fn only_the_order_of_the_counts_matters() {
    let near = distribution(&[(0, 2), (1, 1), (2, 3)]);
    let far = distribution(&[(5, 2), (600, 1), (u64::MAX, 3)]);
    for (a, b) in [(0, 5), (1, 600), (2, u64::MAX)] {
        assert_eq!(percentile(&near, 6, a), percentile(&far, 6, b));
    }
    assert_eq!(percentile(&far, 6, 600), Percentile { below: 2, tied: 0, span: 5 });

    // Counts that no candidate has rank by their order too.
    let narrow = distribution(&[(10, 2), (20, 1), (30, 3)]);
    let wide = distribution(&[(1, 2), (200, 1), (u64::MAX - 1, 3)]);
    for (a, b) in [(9, 0), (11, 199), (21, 201), (31, u64::MAX)] {
        assert_eq!(percentile(&narrow, 6, a), percentile(&wide, 6, b));
    }
    assert_eq!(percentile(&narrow, 6, 21), Percentile { below: 3, tied: 0, span: 5 });
}

#[test]
fn a_lone_candidate_needs_no_sum() {
    let plays = distribution(&[(0, u64::MAX), (1, u64::MAX)]);
    assert_eq!(percentile(&plays, 1, 9), Percentile { below: 0, tied: 0, span: 1 });
}
