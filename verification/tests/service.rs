use bliss_guidance_playcounts::database::OpenFailure;
use bliss_guidance_playcounts::prepare::PrepareStep;
use bliss_guidance_playcounts::protocol::{
    ArtifactDescriptor, Candidate, CandidateIdentity, Capability, GuidanceRequest,
    GuidanceResponse, GuidanceScope, IdentityArtifact, ResourceAccess, ResourceDescriptor, Spi,
    PROVIDER_VERSION,
};
use bliss_guidance_playcounts::provider::Provider;
use bliss_guidance_playcounts::ranking::Percentile;
use bliss_guidance_playcounts::score::ScoreStep;
use bliss_guidance_playcounts::service::{
    ends_session, handle, input_failed, invalid_request, parse_command, prepare_response,
    unsupported_version, usage, version_line, version_metadata_json, Command, Reply,
};

const EMPTY_SHA256: &str = "e3b0c44298fc1c149afbf4c8996fb92427ae41e4649b934ca495991b7852b855";

fn spi() -> Spi {
    Spi { version: 3, protocol: "guidance-protocol".to_owned() }
}

fn refusal(response: GuidanceResponse) -> (String, String, bool) {
    match response {
        GuidanceResponse::Error { provider_id, code, message, retryable } => {
            assert_eq!(provider_id.as_deref(), Some("playcount-guidance"));
            (code, message, retryable)
        }
        _ => panic!("expected a refusal"),
    }
}

fn respond<C>(reply: Reply<'_, C>) -> GuidanceResponse {
    match reply {
        Reply::Respond(response) => response,
        _ => panic!("expected a response"),
    }
}

fn refused(code: &str, message: &str, retryable: bool) -> (String, String, bool) {
    (code.to_owned(), message.to_owned(), retryable)
}

#[test]
fn version_metadata_identifies_playcount_provider_and_spi() {
    let metadata = version_metadata_json(3);
    assert!(metadata.contains("\"program\":\"bliss-guidance-playcounts\""));
    assert!(metadata.contains("\"provider_id\":\"playcount-guidance\""));
    assert!(metadata.contains("\"spi_version\":"));
    assert_eq!(
        metadata,
        format!(
            "{{\"schema_version\":1,\"program\":\"bliss-guidance-playcounts\",\"version\":\"{PROVIDER_VERSION}\",\"provider_id\":\"playcount-guidance\",\"spi_version\":3}}"
        )
    );
}

#[test]
fn manifest_identifies_playcount_guidance_provider() {
    let manifest = Provider::<()>::manifest(&spi());
    assert_eq!(manifest.provider_id, "playcount-guidance");
    assert_eq!(manifest.protocol, spi().protocol);
    assert_eq!(manifest.capabilities, vec![Capability::GlobalCandidateGuidance]);
    assert_eq!(manifest.channels[0].channel, "playcount");
    assert_eq!(manifest.channels[0].scopes, vec![GuidanceScope::Global]);
    assert_eq!(manifest.spi_version, 3);
    assert_eq!(manifest.provider_version, PROVIDER_VERSION);
    assert_eq!(manifest.required_context, vec!["candidate_identity"]);
    let schema = manifest.configuration_schema.unwrap();
    assert_eq!(schema.value_type, "object");
    assert!(!schema.additional_properties);
}

#[test]
fn the_command_line_is_read() {
    let parse = |args: &[&str]| {
        let args: Vec<String> = args.iter().map(|arg| arg.to_string()).collect();
        parse_command(&args)
    };
    assert_eq!(parse(&[]), Command::Serve);
    assert_eq!(parse(&["version"]), Command::Version);
    assert_eq!(parse(&["version", "--json"]), Command::VersionJson);
    assert_eq!(parse(&["version", "--xml"]), Command::Usage);
    assert_eq!(parse(&["--json"]), Command::Usage);
    assert_eq!(parse(&["--json", "version"]), Command::Usage);
    assert_eq!(parse(&["version", "--json", "more"]), Command::Usage);
    assert_eq!(version_line(), format!("bliss-guidance-playcounts {PROVIDER_VERSION}"));
    assert_eq!(
        usage(),
        "Usage:\n  bliss-guidance-playcounts version [--json]\n  bliss-guidance-playcounts"
    );
}

#[test]
fn requests_of_another_version_are_refused() {
    let expected = refused("UNSUPPORTED_SPI_VERSION", "provider supports SPI version 3", false);
    assert_eq!(refusal(unsupported_version(3)), expected);
    let mut provider: Provider<u8> = Provider::default();
    provider.connection = Some(9);
    provider.prepared = true;
    for request in [
        GuidanceRequest::Describe { spi_version: 2 },
        GuidanceRequest::Prepare { spi_version: 4, artifacts: vec![], resources: vec![] },
        GuidanceRequest::Score { spi_version: 0, request_id: "r".to_owned(), candidates: vec![] },
    ] {
        let turn = handle(&mut provider, &spi(), &request);
        assert_eq!(turn.released, None);
        assert_eq!(refusal(respond(turn.reply)), expected);
        assert_eq!(provider.connection, Some(9));
        assert!(provider.prepared);
    }
}

#[test]
fn describing_answers_with_the_manifest() {
    let mut provider: Provider<u8> = Provider::default();
    let request = GuidanceRequest::Describe { spi_version: 3 };
    let turn = handle(&mut provider, &spi(), &request);
    match respond(turn.reply) {
        GuidanceResponse::Manifest(manifest) => assert_eq!(manifest.spi_version, 3),
        _ => panic!("expected a manifest"),
    }
}

#[test]
fn closing_gives_up_the_snapshot_and_ends_the_session() {
    let mut provider: Provider<u8> = Provider::default();
    provider.connection = Some(9);
    provider.prepared = true;
    provider.score_batches = 4;
    provider.cached_counts.insert("a".to_owned(), 1);
    let turn = handle(&mut provider, &spi(), &GuidanceRequest::Close);
    assert_eq!(turn.released, Some(9));
    let response = respond(turn.reply);
    assert!(ends_session(&response));
    match response {
        GuidanceResponse::Closed { provider_id } => assert_eq!(provider_id, "playcount-guidance"),
        _ => panic!("expected the session to be closed"),
    }
    assert!(!provider.prepared);
    assert_eq!(provider.score_batches, 0);
    assert!(provider.cached_counts.is_empty());
    assert!(!ends_session(&unsupported_version(1)));
}

#[test]
fn scoring_needs_a_prepared_snapshot() {
    let mut provider: Provider<u8> = Provider::default();
    let request =
        GuidanceRequest::Score { spi_version: 3, request_id: "r".to_owned(), candidates: vec![] };
    let turn = handle(&mut provider, &spi(), &request);
    match turn.reply {
        Reply::Score(ScoreStep::Respond(response)) => assert_eq!(
            refusal(response),
            refused("NOT_PREPARED", "provider must receive prepare before score", false)
        ),
        _ => panic!("expected a refusal"),
    }
    provider.prepared = true;
    match provider.score("r", &[]) {
        ScoreStep::Respond(response) => assert_eq!(
            refusal(response),
            refused("SNAPSHOT_UNAVAILABLE", "provider has no active SQLite snapshot", true)
        ),
        _ => panic!("expected a refusal"),
    }
}

#[test]
fn input_that_is_no_request_is_refused() {
    assert_eq!(
        refusal(input_failed("broken".to_owned())),
        refused("INPUT_FAILED", "broken", false)
    );
    assert_eq!(
        refusal(invalid_request("what".to_owned())),
        refused("INVALID_REQUEST", "what", false)
    );
}

#[test]
fn failed_preparations_are_retryable() {
    assert_eq!(
        refusal(prepare_response(Err("why".to_owned()))),
        refused("PREPARE_FAILED", "why", true)
    );
}

fn artifact() -> ArtifactDescriptor {
    ArtifactDescriptor {
        kind: "eligible-candidate-identities-v1".to_owned(),
        path: "a".to_owned(),
        sha256: EMPTY_SHA256.to_owned(),
    }
}

fn resource(access: ResourceAccess) -> ResourceDescriptor {
    ResourceDescriptor {
        kind: "lms-persist-sqlite-v1".to_owned(),
        path: "d".to_owned(),
        access,
    }
}

fn identities(candidate_ids: &[&str]) -> IdentityArtifact {
    IdentityArtifact {
        schema_version: 1,
        schema_identity: "eligible-candidate-identities-v1".to_owned(),
        candidates: candidate_ids
            .iter()
            .map(|id| CandidateIdentity { candidate_id: id.to_string(), lms_urlmd5: None })
            .collect(),
    }
}

fn failed(step: PrepareStep<'_, u8>) -> String {
    match step {
        PrepareStep::Failed(message) => message,
        _ => panic!("expected a failure"),
    }
}

#[test]
fn preparation_fails_at_the_first_objection() {
    let mut provider: Provider<u8> = Provider::default();
    provider.connection = Some(9);
    provider.prepared = true;

    let (released, step) = provider.prepare(&[], &[]);
    assert_eq!(released, Some(9));
    assert!(!provider.prepared);
    assert_eq!(failed(step), "missing required eligible-candidate-identities-v1 artifact");

    let artifacts = [artifact()];
    let no_resources: [ResourceDescriptor; 0] = [];
    let reading = |resources| match Provider::<u8>::default().prepare(&artifacts, resources).1 {
        PrepareStep::ReadArtifact(reading) => reading,
        _ => panic!("expected the artifact to be read"),
    };
    assert_eq!(
        failed(reading(&no_resources[..]).resume(Err("gone".to_owned()))),
        "cannot read eligible-candidate-identities-v1 artifact: gone"
    );
    assert_eq!(
        failed(reading(&no_resources[..]).resume(Ok(vec![1]))),
        "eligible-candidate-identities-v1 artifact SHA-256 mismatch"
    );

    let decoding = |resources| match reading(resources).resume::<u8>(Ok(vec![])) {
        PrepareStep::DecodeIdentities(decoding) => {
            assert_eq!(decoding.digest_prefix, "e3b0c44298fc1c14");
            decoding
        }
        _ => panic!("expected the bytes to be decoded"),
    };
    assert_eq!(
        failed(decoding(&no_resources[..]).resume(Err("eof".to_owned()))),
        "cannot decode candidate-identity artifact: eof"
    );
    assert_eq!(
        failed(decoding(&no_resources[..]).resume(Ok(identities(&[" "])))),
        "candidate-identity artifact contains an empty candidate ID"
    );
    assert_eq!(
        failed(decoding(&no_resources[..]).resume(Ok(identities(&["a"])))),
        "missing required lms-persist-sqlite-v1 resource"
    );
    let writable = [resource(ResourceAccess::Other)];
    assert_eq!(
        failed(decoding(&writable[..]).resume(Ok(identities(&["a"])))),
        "lms-persist-sqlite-v1 resource must be read_only"
    );

    let readable = [resource(ResourceAccess::ReadOnly)];
    let opening = match decoding(&readable[..]).resume::<u8>(Ok(identities(&["a", "b"]))) {
        PrepareStep::OpenDatabase(opening) => opening,
        _ => panic!("expected the database to be opened"),
    };
    assert_eq!(opening.resource.path, "d");
    assert_eq!(opening.snapshot_id, "sqlite:e3b0c44298fc1c14:2");
    assert_eq!(
        failed(opening.resume(Err(OpenFailure::Open("locked".to_owned())))),
        "cannot open Lyrion persist database read-only: locked"
    );
}

#[test]
fn a_population_without_digests_needs_no_query() {
    let artifacts = [artifact()];
    let resources = [resource(ResourceAccess::ReadOnly)];
    let mut provider: Provider<u8> = Provider::default();
    let mut step = provider.prepare(&artifacts, &resources).1;
    let snapshot = loop {
        step = match step {
            PrepareStep::ReadArtifact(reading) => reading.resume(Ok(vec![])),
            PrepareStep::DecodeIdentities(decoding) => decoding.resume(Ok(identities(&["a", "b"]))),
            PrepareStep::OpenDatabase(opening) => opening.resume(Ok(5)),
            PrepareStep::InspectTable(inspection) => inspection.resume(Ok(true)),
            PrepareStep::ListColumns(listing) => {
                listing.resume(Ok(vec!["playcount".to_owned(), "urlmd5".to_owned()]))
            }
            PrepareStep::Ready(snapshot) => break snapshot,
            _ => panic!("unexpected step"),
        };
    };
    assert_eq!(snapshot.query_batches, 0);
    let installed = provider.install(snapshot, 0);
    assert_eq!(installed.0.as_deref(), Some("sqlite:e3b0c44298fc1c14:2"));
    assert_eq!(provider.connection, Some(5));
    assert_eq!(provider.zero_count, 2);
    match prepare_response(Ok(installed)) {
        GuidanceResponse::Prepared { provider_id, snapshot_id, .. } => {
            assert_eq!(provider_id, "playcount-guidance");
            assert_eq!(snapshot_id.as_deref(), Some("sqlite:e3b0c44298fc1c14:2"));
        }
        _ => panic!("expected a prepared response"),
    }

    let candidates = [Candidate { candidate_id: "a".to_owned(), lms_urlmd5: None }];
    match provider.score("r", &candidates) {
        ScoreStep::Ready(ready) => match provider.finish_score(ready, 0) {
            GuidanceResponse::Scores { signals, .. } => {
                assert_eq!(signals.len(), 1);
                assert_eq!(signals[0].candidate_id, "a");
                assert_eq!(signals[0].percentile, Percentile { below: 0, tied: 1, span: 1 });
            }
            _ => panic!("expected scores"),
        },
        _ => panic!("expected no query"),
    }
}

#[test]
fn counters_without_room_are_noticed() {
    let mut provider: Provider<u8> = Provider::default();
    provider.prepared = true;
    provider.connection = Some(1);
    match provider.score("r", &[]) {
        ScoreStep::Ready(ready) => {
            assert!(provider.can_record(&ready));
            provider.score_batches = u64::MAX;
            assert!(!provider.can_record(&ready));
        }
        _ => panic!("expected no query"),
    }
}

#[test]
fn sessions_score_only_while_they_hold_a_snapshot() {
    let artifacts = [artifact()];
    let resources = [resource(ResourceAccess::ReadOnly)];
    let mut provider: Provider<u8> = Provider::default();
    let scores = |provider: &Provider<u8>| match provider.score("r", &[]) {
        ScoreStep::Ready(_) => true,
        ScoreStep::Respond(response) => {
            assert_eq!(
                refusal(response),
                refused("NOT_PREPARED", "provider must receive prepare before score", false)
            );
            false
        }
        ScoreStep::FetchCounts(_) => panic!("expected no query"),
    };
    let install = |provider: &mut Provider<u8>| {
        let mut step = provider.prepare(&artifacts, &resources).1;
        loop {
            step = match step {
                PrepareStep::ReadArtifact(reading) => reading.resume(Ok(vec![])),
                PrepareStep::DecodeIdentities(decoding) => decoding.resume(Ok(identities(&["a"]))),
                PrepareStep::OpenDatabase(opening) => opening.resume(Ok(5)),
                PrepareStep::InspectTable(inspection) => inspection.resume(Ok(true)),
                PrepareStep::ListColumns(listing) => {
                    listing.resume(Ok(vec!["playcount".to_owned(), "urlmd5".to_owned()]))
                }
                PrepareStep::Ready(snapshot) => {
                    let _ = provider.install(snapshot, 0);
                    return;
                }
                _ => panic!("unexpected step"),
            };
        }
    };
    assert!(!scores(&provider));
    install(&mut provider);
    assert!(scores(&provider));
    let _ = handle(&mut provider, &spi(), &GuidanceRequest::Describe { spi_version: 3 });
    assert!(scores(&provider));
    let _ = provider.prepare(&[], &resources);
    assert!(!scores(&provider));
    install(&mut provider);
    assert!(scores(&provider));
    let _ = handle(&mut provider, &spi(), &GuidanceRequest::Close);
    assert!(!scores(&provider));
}
