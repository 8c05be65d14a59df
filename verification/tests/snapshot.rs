use std::collections::hash_map::RandomState;
use std::hash::{BuildHasher, Hasher};

use bliss_guidance_playcounts::counts::{CountQuery, CountRow, QueryFailure};
use bliss_guidance_playcounts::database::{
    ColumnsFailure, OpenFailure, COLUMNS_SQL, RELEASE_SQL, SNAPSHOT_SQL, TABLE_SQL,
};
use bliss_guidance_playcounts::population::IDENTITY_ARTIFACT;
use bliss_guidance_playcounts::prepare::{PrepareStep, DATABASE_RESOURCE};
use bliss_guidance_playcounts::protocol::{
    ArtifactDescriptor, Candidate, CandidateIdentity, Details, Diagnostics, GuidanceResponse,
    GuidanceScope, IdentityArtifact, ResourceAccess, ResourceDescriptor, ScoreDetails,
};
use bliss_guidance_playcounts::provider::Provider;
use bliss_guidance_playcounts::ranking::Percentile;
use bliss_guidance_playcounts::score::ScoreStep;
use rusqlite::{params_from_iter, Connection, OpenFlags};
use serde_json::Value;
use sha2::{Digest, Sha256};

fn fixture_database(rows: &[(&str, i64)]) -> Connection {
    let connection = Connection::open_in_memory().unwrap();
    connection
        .execute_batch("CREATE TABLE tracks_persistent (urlmd5 TEXT PRIMARY KEY, playcount INTEGER);")
        .unwrap();
    for (urlmd5, playcount) in rows {
        connection
            .execute(
                "INSERT INTO tracks_persistent(urlmd5, playcount) VALUES (?1, ?2)",
                (urlmd5, playcount),
            )
            .unwrap();
    }
    connection
}

/// A path that no other run uses: hashers are seeded at random.
fn fresh_path() -> String {
    let mark = RandomState::new().build_hasher().finish();
    format!("/tmp/bliss-guidance-playcounts-{mark:016x}.sqlite")
}

fn text(value: &str) -> Value {
    Value::String(value.to_owned())
}

fn identity_payload(identities: &[(&str, Option<&str>)]) -> Vec<u8> {
    let mut candidates = Vec::new();
    for (candidate_id, lms_urlmd5) in identities {
        let mut candidate = serde_json::Map::new();
        candidate.insert("candidate_id".to_owned(), text(candidate_id));
        if let Some(urlmd5) = lms_urlmd5 {
            candidate.insert("lms_urlmd5".to_owned(), text(urlmd5));
        }
        candidates.push(Value::Object(candidate));
    }
    let mut payload = serde_json::Map::new();
    payload.insert("schema_version".to_owned(), Value::from(1));
    payload.insert("schema_identity".to_owned(), text("eligible-candidate-identities-v1"));
    payload.insert("candidates".to_owned(), Value::Array(candidates));
    serde_json::to_vec(&Value::Object(payload)).unwrap()
}

fn decode_identities(bytes: &[u8]) -> Result<IdentityArtifact, String> {
    let value: Value = serde_json::from_slice(bytes).map_err(|error| error.to_string())?;
    Ok(IdentityArtifact {
        schema_version: value["schema_version"].as_u64().unwrap() as u8,
        schema_identity: value["schema_identity"].as_str().unwrap().to_owned(),
        candidates: value["candidates"]
            .as_array()
            .unwrap()
            .iter()
            .map(|candidate| CandidateIdentity {
                candidate_id: candidate["candidate_id"].as_str().unwrap().to_owned(),
                lms_urlmd5: candidate["lms_urlmd5"].as_str().map(str::to_owned),
            })
            .collect(),
    })
}

fn identity_descriptor(payload: &[u8]) -> ArtifactDescriptor {
    ArtifactDescriptor {
        kind: IDENTITY_ARTIFACT.to_owned(),
        path: "identities.json".to_owned(),
        sha256: format!("{:x}", Sha256::digest(payload)),
    }
}

fn persist_resource() -> ResourceDescriptor {
    ResourceDescriptor {
        kind: DATABASE_RESOURCE.to_owned(),
        path: "persist.db".to_owned(),
        access: ResourceAccess::ReadOnly,
    }
}

fn candidate(id: &str, urlmd5: &str) -> Candidate {
    Candidate { candidate_id: id.to_owned(), lms_urlmd5: Some(urlmd5.to_owned()) }
}

fn run_query(connection: &Connection, query: &CountQuery) -> Result<Vec<CountRow>, QueryFailure> {
    let mut statement =
        connection.prepare(&query.sql).map_err(|error| QueryFailure::Prepare(error.to_string()))?;
    let rows = statement
        .query_map(params_from_iter(query.urlmd5s.iter()), |row| {
            Ok(CountRow { playcount: row.get(1)?, urlmd5: row.get(0)? })
        })
        .map_err(|error| QueryFailure::Query(error.to_string()))?;
    rows.collect::<Result<Vec<_>, _>>().map_err(|error| QueryFailure::Decode(error.to_string()))
}

fn list_columns(connection: &Connection) -> Result<Vec<String>, ColumnsFailure> {
    let mut statement = connection
        .prepare(COLUMNS_SQL)
        .map_err(|error| ColumnsFailure::Prepare(error.to_string()))?;
    let columns = statement
        .query_map([], |row| row.get::<_, String>(1))
        .map_err(|error| ColumnsFailure::Query(error.to_string()))?;
    columns.collect::<Result<Vec<_>, _>>().map_err(|error| ColumnsFailure::Decode(error.to_string()))
}

fn prepare(
    provider: &mut Provider<Connection>,
    payload: &[u8],
    database: Connection,
) -> Result<(Option<String>, Diagnostics), String> {
    let artifacts = [identity_descriptor(payload)];
    let resources = [persist_resource()];
    let mut database = Some(database);
    let (released, mut step) = provider.prepare(&artifacts, &resources);
    if let Some(connection) = released {
        connection.execute_batch(RELEASE_SQL).unwrap();
    }
    loop {
        step = match step {
            PrepareStep::ReadArtifact(reading) => {
                assert_eq!(reading.artifact.path, "identities.json");
                reading.resume(Ok(payload.to_vec()))
            }
            PrepareStep::DecodeIdentities(decoding) => {
                let decoded = decode_identities(&decoding.bytes);
                decoding.resume(decoded)
            }
            PrepareStep::OpenDatabase(opening) => {
                assert_eq!(opening.resource.path, "persist.db");
                let connection = database.take().unwrap();
                let opened = connection
                    .execute_batch(SNAPSHOT_SQL)
                    .map_err(|error| OpenFailure::Begin(error.to_string()));
                opening.resume(opened.map(|()| connection))
            }
            PrepareStep::InspectTable(inspection) => {
                let exists = inspection
                    .source
                    .connection
                    .query_row(TABLE_SQL, [], |row| row.get::<_, bool>(0))
                    .map_err(|error| error.to_string());
                inspection.resume(exists)
            }
            PrepareStep::ListColumns(listing) => {
                let columns = list_columns(&listing.source.connection);
                listing.resume(columns)
            }
            PrepareStep::FetchCounts(fetching) => {
                let rows = run_query(&fetching.source.connection, &fetching.lookup.query);
                fetching.resume(rows)
            }
            PrepareStep::Ready(snapshot) => return Ok(provider.install(snapshot, 7)),
            PrepareStep::Failed(message) => return Err(message),
        };
    }
}

fn score_all(provider: &mut Provider<Connection>, candidates: &[Candidate]) -> GuidanceResponse {
    let mut step = provider.score("score", candidates);
    loop {
        step = match step {
            ScoreStep::FetchCounts(fetching) => {
                let rows = run_query(provider.connection.as_ref().unwrap(), &fetching.lookup.query);
                fetching.resume(rows)
            }
            ScoreStep::Ready(ready) => {
                assert!(provider.can_record(&ready));
                return provider.finish_score(ready, 3);
            }
            ScoreStep::Respond(response) => return response,
        };
    }
}

fn value(percentile: Percentile) -> f64 {
    let average_rank = percentile.below as f64 + percentile.tied as f64 / 2.0;
    average_rank / percentile.span as f64
}

fn score(provider: &mut Provider<Connection>, candidate_id: &str, urlmd5: &str) -> f64 {
    match score_all(provider, &[candidate(candidate_id, urlmd5)]) {
        GuidanceResponse::Scores { signals, .. } => {
            let signal = signals
                .into_iter()
                .find(|signal| signal.candidate_id == candidate_id)
                .expect("candidate receives a signal");
            assert_eq!(signal.channel, "playcount");
            assert_eq!(signal.scope, GuidanceScope::Global);
            assert_eq!(signal.confidence, 1);
            assert_eq!(signal.observed_at, None);
            2.0 * value(signal.percentile) - 1.0
        }
        _ => panic!("expected score response"),
    }
}

fn score_details(response: &GuidanceResponse) -> ScoreDetails {
    match response {
        GuidanceResponse::Scores { diagnostics, .. } => match diagnostics.details {
            Some(Details::Score(details)) => details,
            _ => panic!("expected score details"),
        },
        _ => panic!("expected score response"),
    }
}

#[test]
fn sqlite_snapshot_scores_zero_and_absent_counts_equally() {
    let database = fixture_database(&[("favorite", 10)]);
    let payload = identity_payload(&[
        ("zero", Some("zero")),
        ("missing", Some("missing")),
        ("favorite", Some("favorite")),
    ]);
    let mut provider = Provider::default();
    prepare(&mut provider, &payload, database).unwrap();
    assert_eq!(
        score(&mut provider, "zero", "zero"),
        score(&mut provider, "missing", "missing")
    );
    assert!(score(&mut provider, "zero", "zero") < score(&mut provider, "favorite", "favorite"));
    assert_eq!(score(&mut provider, "favorite", "favorite"), 1.0);
    assert_eq!(score(&mut provider, "zero", "zero"), -0.5);
}

#[test]
fn equal_counts_use_the_same_average_rank_across_score_batches() {
    let database = fixture_database(&[("same-a", 5), ("same-b", 5), ("high", 20)]);
    let payload = identity_payload(&[
        ("same-a", Some("same-a")),
        ("same-b", Some("same-b")),
        ("high", Some("high")),
    ]);
    let mut provider = Provider::default();
    prepare(&mut provider, &payload, database).unwrap();
    assert_eq!(
        score(&mut provider, "same-a", "same-a"),
        score(&mut provider, "same-b", "same-b")
    );
    assert!(score(&mut provider, "same-a", "same-a") < score(&mut provider, "high", "high"));
}

#[test]
fn prepared_snapshot_ignores_a_later_external_database_update() {
    let path = fresh_path();
    let writer = Connection::open(&path).unwrap();
    writer
        .execute_batch(
            "PRAGMA journal_mode=WAL;
             CREATE TABLE tracks_persistent (urlmd5 TEXT PRIMARY KEY, playcount INTEGER);
             INSERT INTO tracks_persistent(urlmd5, playcount) VALUES ('song', 1), ('other', 10);",
        )
        .unwrap();
    let reader = Connection::open_with_flags(
        &path,
        OpenFlags::SQLITE_OPEN_READ_ONLY | OpenFlags::SQLITE_OPEN_NO_MUTEX,
    )
    .unwrap();
    let payload = identity_payload(&[("song", Some("song")), ("other", Some("other"))]);
    let mut provider = Provider::default();
    prepare(&mut provider, &payload, reader).unwrap();
    assert_eq!(score(&mut provider, "other", "other"), 1.0);
    writer
        .execute("UPDATE tracks_persistent SET playcount = 999 WHERE urlmd5 = 'song'", [])
        .unwrap();
    assert_eq!(score(&mut provider, "song", "song"), -1.0);
    let released = provider.reset().unwrap();
    released.execute_batch(RELEASE_SQL).unwrap();
    drop(released);
    writer.execute_batch("DROP TABLE tracks_persistent; VACUUM;").unwrap();
}

#[test]
fn missing_persistent_schema_is_rejected_during_prepare() {
    let database = Connection::open_in_memory().unwrap();
    let payload = identity_payload(&[("song", Some("song"))]);
    let mut provider = Provider::default();
    let error = match prepare(&mut provider, &payload, database) {
        Err(error) => error,
        Ok(_) => panic!("expected a refusal"),
    };
    assert!(error.contains("tracks_persistent"));
    assert_eq!(error, "tracks_persistent table is unavailable");
    assert!(!provider.prepared);
}

#[test]
fn missing_columns_are_rejected_by_name() {
    for (sql, message) in [
        (
            "CREATE TABLE tracks_persistent (playcount INTEGER);",
            "tracks_persistent.urlmd5 column is unavailable",
        ),
        (
            "CREATE TABLE tracks_persistent (urlmd5 TEXT);",
            "tracks_persistent.playcount column is unavailable",
        ),
    ] {
        let database = Connection::open_in_memory().unwrap();
        database.execute_batch(sql).unwrap();
        let payload = identity_payload(&[("song", Some("song"))]);
        let mut provider = Provider::default();
        assert_eq!(prepare(&mut provider, &payload, database).err().unwrap(), message);
    }
}

#[test]
fn preparation_reports_its_population() {
    let database = fixture_database(&[("a", 3), ("b", -4), ("c", 3), ("elsewhere", 50)]);
    let payload = identity_payload(&[
        ("a", Some("a")),
        ("b", Some("b")),
        ("c", Some("c")),
        ("again", Some("c")),
        ("absent", Some("absent")),
        ("blank", Some("  ")),
        ("none", None),
    ]);
    let mut provider = Provider::default();
    let (snapshot_id, diagnostics) = prepare(&mut provider, &payload, database).unwrap();
    let digest = format!("{:x}", Sha256::digest(&payload));
    assert_eq!(snapshot_id.unwrap(), format!("sqlite:{}:7", &digest[..16]));
    assert_eq!(diagnostics.state.as_deref(), Some("fresh"));
    assert_eq!(diagnostics.request_count, 1);
    assert_eq!(diagnostics.failure_count, 0);
    let details = match diagnostics.details {
        Some(Details::Prepare(details)) => details,
        _ => panic!("expected prepare details"),
    };
    assert_eq!(details.eligible_candidates, 7);
    assert_eq!(details.known_counts, 4);
    assert_eq!(details.zero_counts, 4);
    assert_eq!(details.distinct_play_counts, 2);
    assert_eq!(details.prepare_query_batches, 1);
    assert_eq!(details.elapsed_ms, 7);
    assert_eq!(provider.distribution.get(&0), Some(&4));
    assert_eq!(provider.distribution.get(&3), Some(&3));
    assert!(provider.prepared);
    // The highest count outside the population is held to the highest percentile.
    assert_eq!(score(&mut provider, "elsewhere", "elsewhere"), 1.0);
}

#[test]
fn later_requests_reuse_the_counts_of_earlier_ones() {
    let database = fixture_database(&[("a", 1), ("b", 2)]);
    let payload = identity_payload(&[("a", Some("a")), ("b", Some("b")), ("c", Some("c"))]);
    let mut provider = Provider::default();
    prepare(&mut provider, &payload, database).unwrap();

    let first = score_all(&mut provider, &[candidate("a", "a"), candidate("c", "c")]);
    let details = score_details(&first);
    assert_eq!(details.query_batches, 1);
    assert_eq!(details.cache_hits, 0);
    assert_eq!(details.total_score_batches, 1);
    assert_eq!(details.distribution_size, 3);
    assert_eq!(details.elapsed_ms, 3);

    // The table changes, yet the remembered count stays.
    provider
        .connection
        .as_ref()
        .unwrap()
        .execute_batch("PRAGMA query_only = OFF; UPDATE tracks_persistent SET playcount = 99;")
        .unwrap();
    let second = score_all(
        &mut provider,
        &[candidate("a", "a"), candidate("b", "b"), candidate("again", "a")],
    );
    let details = score_details(&second);
    assert_eq!(details.query_batches, 1);
    assert_eq!(details.cache_hits, 1);
    assert_eq!(details.total_score_batches, 2);
    assert_eq!(details.total_score_query_batches, 2);
    assert_eq!(details.total_cache_hits, 1);
    match second {
        GuidanceResponse::Scores { provider_id, request_id, signals, .. } => {
            assert_eq!(provider_id, "playcount-guidance");
            assert_eq!(request_id, "score");
            assert_eq!(signals.len(), 3);
            assert_eq!(signals[0].percentile, Percentile { below: 1, tied: 0, span: 2 });
            assert_eq!(signals[0].percentile, signals[2].percentile);
            assert_eq!(signals[2].candidate_id, "again");
        }
        _ => panic!("expected score response"),
    }

    let third = score_all(&mut provider, &[candidate("b", "b"), candidate("c", "c")]);
    let details = score_details(&third);
    assert_eq!(details.query_batches, 0);
    assert_eq!(details.cache_hits, 2);
    assert_eq!(details.total_score_query_batches, 2);
}

#[test]
fn every_candidate_gets_a_signal_and_those_without_a_digest_count_as_unplayed() {
    let database = fixture_database(&[("a", 1), ("  ", 40)]);
    let payload = identity_payload(&[("a", Some("a")), ("b", Some("b"))]);
    let mut provider = Provider::default();
    prepare(&mut provider, &payload, database).unwrap();
    let none = Candidate { candidate_id: "none".to_owned(), lms_urlmd5: None };
    let candidates =
        [none, candidate("blank", "  "), candidate("a", "a"), candidate("absent", "absent")];
    let response = score_all(&mut provider, &candidates);
    assert_eq!(score_details(&response).query_batches, 1);
    match response {
        GuidanceResponse::Scores { signals, .. } => {
            let ids: Vec<&str> =
                signals.iter().map(|signal| signal.candidate_id.as_str()).collect();
            assert_eq!(ids, vec!["none", "blank", "a", "absent"]);
            for i in [0, 1, 3] {
                assert_eq!(signals[i].percentile, Percentile { below: 0, tied: 0, span: 1 });
            }
            assert_eq!(signals[2].percentile, Percentile { below: 1, tied: 0, span: 1 });
        }
        _ => panic!("expected score response"),
    }
}

#[test]
fn a_request_without_any_digest_is_answered_without_a_query() {
    let database = fixture_database(&[("a", 1)]);
    let payload = identity_payload(&[("a", Some("a")), ("b", None)]);
    let mut provider = Provider::default();
    prepare(&mut provider, &payload, database).unwrap();
    let none = Candidate { candidate_id: "none".to_owned(), lms_urlmd5: None };
    let response = score_all(&mut provider, &[none]);
    assert_eq!(score_details(&response).query_batches, 0);
    match response {
        GuidanceResponse::Scores { signals, .. } => {
            assert_eq!(signals.len(), 1);
            assert_eq!(signals[0].candidate_id, "none");
            assert_eq!(signals[0].percentile, Percentile { below: 0, tied: 0, span: 1 });
        }
        _ => panic!("expected score response"),
    }
}

#[test]
fn lookups_beyond_the_batch_limit_read_the_whole_table() {
    let names: Vec<String> = (0..2000).map(|i| format!("track-{i:04}")).collect();
    let rows: Vec<(&str, i64)> =
        names.iter().enumerate().map(|(i, name)| (name.as_str(), i as i64)).collect();
    let identities: Vec<(&str, Option<&str>)> =
        names.iter().map(|name| (name.as_str(), Some(name.as_str()))).collect();
    let mut provider = Provider::default();
    let payload = identity_payload(&identities);
    let (_, diagnostics) = prepare(&mut provider, &payload, fixture_database(&rows)).unwrap();
    match diagnostics.details {
        Some(Details::Prepare(details)) => {
            assert_eq!(details.prepare_query_batches, 3);
            assert_eq!(details.known_counts, 2000);
            assert_eq!(details.zero_counts, 1);
            assert_eq!(details.distinct_play_counts, 2000);
        }
        _ => panic!("expected prepare details"),
    }
    let candidates: Vec<Candidate> =
        names.iter().map(|name| candidate(name, name)).collect();
    match score_all(&mut provider, &candidates) {
        GuidanceResponse::Scores { signals, .. } => {
            assert_eq!(signals.len(), 2000);
            for (i, signal) in signals.iter().enumerate() {
                assert_eq!(
                    signal.percentile,
                    Percentile { below: i as u64, tied: 0, span: 1999 }
                );
            }
        }
        _ => panic!("expected score response"),
    }
    assert_eq!(provider.score_query_batches, 3);
}

#[test]
fn a_failed_lookup_is_refused_and_changes_nothing() {
    let database = fixture_database(&[("a", 1)]);
    let payload = identity_payload(&[("a", Some("a")), ("b", Some("b"))]);
    let mut provider = Provider::default();
    prepare(&mut provider, &payload, database).unwrap();
    provider
        .connection
        .as_ref()
        .unwrap()
        .execute_batch("PRAGMA query_only = OFF; DROP TABLE tracks_persistent;")
        .unwrap();
    match score_all(&mut provider, &[candidate("a", "a")]) {
        GuidanceResponse::Error { provider_id, code, message, retryable } => {
            assert_eq!(provider_id.as_deref(), Some("playcount-guidance"));
            assert_eq!(code, "SCORE_LOOKUP_FAILED");
            assert!(message.starts_with("cannot prepare play-count query: "));
            assert!(retryable);
        }
        _ => panic!("expected a refusal"),
    }
    assert_eq!(provider.score_batches, 0);
    assert!(!provider.cached_counts.contains_key("a"));
}

#[test]
fn preparing_again_releases_the_earlier_snapshot() {
    let payload = identity_payload(&[("a", Some("a")), ("b", Some("b"))]);
    let mut provider = Provider::default();
    prepare(&mut provider, &payload, fixture_database(&[("a", 1)])).unwrap();
    assert_eq!(score(&mut provider, "a", "a"), 1.0);
    prepare(&mut provider, &payload, fixture_database(&[("b", 1)])).unwrap();
    assert_eq!(provider.score_batches, 0);
    assert_eq!(score(&mut provider, "a", "a"), -1.0);
}

#[test]
fn scoring_leaves_the_population_alone_and_repeats_itself() {
    let payload = identity_payload(&[("a", Some("a")), ("b", Some("b")), ("c", None)]);
    let rows = [("a", 1), ("b", 2)];
    let mut provider = Provider::default();
    let (snapshot_id, _) = prepare(&mut provider, &payload, fixture_database(&rows)).unwrap();
    let distribution = provider.distribution.clone();
    let scores = [score(&mut provider, "a", "a"), score(&mut provider, "b", "b")];
    assert_eq!(provider.distribution, distribution);
    assert_eq!((provider.eligible_count, provider.known_count, provider.zero_count), (3, 2, 1));
    assert_eq!(provider.snapshot_id, snapshot_id);
    assert!(provider.prepared);
    assert_eq!([score(&mut provider, "a", "a"), score(&mut provider, "b", "b")], scores);

    let mut other = Provider::default();
    let (again, _) = prepare(&mut other, &payload, fixture_database(&rows)).unwrap();
    assert_eq!(again, snapshot_id);
    assert_eq!(other.distribution, distribution);
    assert_eq!([score(&mut other, "a", "a"), score(&mut other, "b", "b")], scores);
}
