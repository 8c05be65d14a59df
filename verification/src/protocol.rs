//! The values that the provider exchanges with the optimizer, and what they say
//! as plain sequences of characters.

use vstd::prelude::*;

use crate::ranking::Percentile;
use crate::text::texts;

verus! {

/// The SPI that the provider speaks, as its host defines it.
pub struct Spi {
    pub version: u64,
    pub protocol: String,
}

/// A file that the optimizer hands over, with the digest of its bytes in hexadecimal.
pub struct ArtifactDescriptor {
    pub kind: String,
    pub path: String,
    pub sha256: String,
}

/// What a provider may do with a resource.
#[derive(Clone, Copy, Debug, PartialEq, Eq, Structural)]
pub enum ResourceAccess {
    ReadOnly,
    /// Any access beyond reading.
    Other,
}

/// A resource that the optimizer grants access to.
pub struct ResourceDescriptor {
    pub kind: String,
    pub path: String,
    pub access: ResourceAccess,
}

/// A candidate to score. Its LMS digest is what the database knows it by.
pub struct Candidate {
    pub candidate_id: String,
    pub lms_urlmd5: Option<String>,
}

/// The eligible candidates, as the identity artifact lists them.
pub struct IdentityArtifact {
    pub schema_version: u8,
    pub schema_identity: String,
    pub candidates: Vec<CandidateIdentity>,
}

/// One eligible candidate.
pub struct CandidateIdentity {
    pub candidate_id: String,
    pub lms_urlmd5: Option<String>,
}

/// What a provider can do.
#[derive(Clone, Copy, Debug, PartialEq, Eq, Structural)]
pub enum Capability {
    GlobalCandidateGuidance,
}

/// What a signal speaks about.
#[derive(Clone, Copy, Debug, PartialEq, Eq, Structural)]
pub enum GuidanceScope {
    Global,
}

/// A channel on which the provider sends signals.
pub struct ChannelDescriptor {
    pub channel: String,
    pub scopes: Vec<GuidanceScope>,
}

/// The shape of the configuration that the provider accepts.
pub struct ConfigurationSchema {
    pub value_type: String,
    pub additional_properties: bool,
}

/// The provider's description of itself.
pub struct Manifest {
    pub spi_version: u64,
    pub provider_id: String,
    pub provider_version: String,
    pub protocol: String,
    pub capabilities: Vec<Capability>,
    pub channels: Vec<ChannelDescriptor>,
    pub required_context: Vec<String>,
    pub configuration_schema: Option<ConfigurationSchema>,
}

/// Figures about a prepared snapshot.
#[derive(Clone, Copy, Debug, PartialEq, Eq, Structural)]
pub struct PrepareDetails {
    pub eligible_candidates: u64,
    pub known_counts: u64,
    pub zero_counts: u64,
    pub distinct_play_counts: usize,
    pub prepare_query_batches: u64,
    pub elapsed_ms: u128,
}

/// Figures about one score request and those before it.
#[derive(Clone, Copy, Debug, PartialEq, Eq, Structural)]
pub struct ScoreDetails {
    pub eligible_candidates: u64,
    pub known_counts: u64,
    pub zero_counts: u64,
    pub distribution_size: usize,
    pub query_batches: u64,
    pub cache_hits: u64,
    pub total_score_batches: u64,
    pub total_score_query_batches: u64,
    pub total_cache_hits: u64,
    pub elapsed_ms: u128,
}

/// The figures that a response carries.
#[derive(Clone, Copy, Debug, PartialEq, Eq, Structural)]
pub enum Details {
    Prepare(PrepareDetails),
    Score(ScoreDetails),
}

/// How a request went.
pub struct Diagnostics {
    pub state: Option<String>,
    pub request_count: u64,
    pub failure_count: u64,
    pub details: Option<Details>,
}

/// The guidance for one candidate. Its score is `2 * percentile - 1`.
pub struct GuidanceSignal {
    pub candidate_id: String,
    pub channel: String,
    pub scope: GuidanceScope,
    pub percentile: Percentile,
    pub confidence: u64,
    /// When what the signal rests on was observed.
    pub observed_at: Option<String>,
}

/// What the optimizer asks for.
pub enum GuidanceRequest {
    Describe { spi_version: u64 },
    Prepare {
        spi_version: u64,
        artifacts: Vec<ArtifactDescriptor>,
        resources: Vec<ResourceDescriptor>,
    },
    Score { spi_version: u64, request_id: String, candidates: Vec<Candidate> },
    Close,
}

/// What the provider answers.
#[allow(inconsistent_fields)]
pub enum GuidanceResponse {
    Manifest(Manifest),
    Prepared { provider_id: String, snapshot_id: Option<String>, diagnostics: Diagnostics },
    Scores {
        provider_id: String,
        request_id: String,
        signals: Vec<GuidanceSignal>,
        diagnostics: Diagnostics,
    },
    Error { provider_id: Option<String>, code: String, message: String, retryable: bool },
    Closed { provider_id: String },
}

/// The characters of an optional string.
pub open spec fn optional_text(value: Option<String>) -> Option<Seq<char>> {
    match value {
        Some(text) => Some(text@),
        None => None,
    }
}

/// What a channel descriptor says.
pub ghost struct ChannelView {
    pub channel: Seq<char>,
    pub scopes: Seq<GuidanceScope>,
}

impl View for ChannelDescriptor {
    type V = ChannelView;

    open spec fn view(&self) -> ChannelView {
        ChannelView { channel: self.channel@, scopes: self.scopes@ }
    }
}

/// What a configuration schema says.
pub ghost struct SchemaView {
    pub value_type: Seq<char>,
    pub additional_properties: bool,
}

impl View for ConfigurationSchema {
    type V = SchemaView;

    open spec fn view(&self) -> SchemaView {
        SchemaView {
            value_type: self.value_type@,
            additional_properties: self.additional_properties,
        }
    }
}

/// What a manifest says.
pub ghost struct ManifestView {
    pub spi_version: u64,
    pub provider_id: Seq<char>,
    pub provider_version: Seq<char>,
    pub protocol: Seq<char>,
    pub capabilities: Seq<Capability>,
    pub channels: Seq<ChannelView>,
    pub required_context: Seq<Seq<char>>,
    pub configuration_schema: Option<SchemaView>,
}

impl View for Manifest {
    type V = ManifestView;

    open spec fn view(&self) -> ManifestView {
        ManifestView {
            spi_version: self.spi_version,
            provider_id: self.provider_id@,
            provider_version: self.provider_version@,
            protocol: self.protocol@,
            capabilities: self.capabilities@,
            channels: Seq::new(self.channels@.len(), |i: int| self.channels@[i]@),
            required_context: texts(self.required_context@),
            configuration_schema: match self.configuration_schema {
                Some(schema) => Some(schema@),
                None => None,
            },
        }
    }
}

/// What diagnostics say.
pub ghost struct DiagnosticsView {
    pub state: Option<Seq<char>>,
    pub request_count: u64,
    pub failure_count: u64,
    pub details: Option<Details>,
}

impl View for Diagnostics {
    type V = DiagnosticsView;

    open spec fn view(&self) -> DiagnosticsView {
        DiagnosticsView {
            state: optional_text(self.state),
            request_count: self.request_count,
            failure_count: self.failure_count,
            details: self.details,
        }
    }
}

/// What a signal says.
pub ghost struct SignalView {
    pub candidate_id: Seq<char>,
    pub channel: Seq<char>,
    pub scope: GuidanceScope,
    pub percentile: Percentile,
    pub confidence: u64,
    pub observed_at: Option<Seq<char>>,
}

impl View for GuidanceSignal {
    type V = SignalView;

    open spec fn view(&self) -> SignalView {
        SignalView {
            candidate_id: self.candidate_id@,
            channel: self.channel@,
            scope: self.scope,
            percentile: self.percentile,
            confidence: self.confidence,
            observed_at: optional_text(self.observed_at),
        }
    }
}

/// What a list of signals says.
pub open spec fn signal_views(signals: Seq<GuidanceSignal>) -> Seq<SignalView> {
    Seq::new(signals.len(), |i: int| signals[i]@)
}

/// What a response says.
#[allow(inconsistent_fields)]
pub ghost enum ResponseView {
    Manifest(ManifestView),
    Prepared {
        provider_id: Seq<char>,
        snapshot_id: Option<Seq<char>>,
        diagnostics: DiagnosticsView,
    },
    Scores {
        provider_id: Seq<char>,
        request_id: Seq<char>,
        signals: Seq<SignalView>,
        diagnostics: DiagnosticsView,
    },
    Error {
        provider_id: Option<Seq<char>>,
        code: Seq<char>,
        message: Seq<char>,
        retryable: bool,
    },
    Closed { provider_id: Seq<char> },
}

impl View for GuidanceResponse {
    type V = ResponseView;

    open spec fn view(&self) -> ResponseView {
        match self {
            GuidanceResponse::Manifest(manifest) => ResponseView::Manifest(manifest@),
            GuidanceResponse::Prepared { provider_id, snapshot_id, diagnostics } => {
                ResponseView::Prepared {
                    provider_id: provider_id@,
                    snapshot_id: optional_text(*snapshot_id),
                    diagnostics: diagnostics@,
                }
            },
            GuidanceResponse::Scores { provider_id, request_id, signals, diagnostics } => {
                ResponseView::Scores {
                    provider_id: provider_id@,
                    request_id: request_id@,
                    signals: signal_views(signals@),
                    diagnostics: diagnostics@,
                }
            },
            GuidanceResponse::Error { provider_id, code, message, retryable } => {
                ResponseView::Error {
                    provider_id: optional_text(*provider_id),
                    code: code@,
                    message: message@,
                    retryable: *retryable,
                }
            },
            GuidanceResponse::Closed { provider_id } => ResponseView::Closed {
                provider_id: provider_id@,
            },
        }
    }
}

/// The identifier under which the provider is known.
pub const PROVIDER_ID: &'static str = "playcount-guidance";

/// The version of the provider.
pub const PROVIDER_VERSION: &'static str = "0.1.0";

/// The name of the program.
pub const PROGRAM: &'static str = "bliss-guidance-playcounts";

/// A refusal that this provider signs.
pub open spec fn refusal(code: Seq<char>, message: Seq<char>, retryable: bool) -> ResponseView {
    ResponseView::Error { provider_id: Some(PROVIDER_ID@), code, message, retryable }
}

/// Refuses a request with a code, a message and whether asking again may help.
pub fn refuse(code: &str, message: String, retryable: bool) -> (response: GuidanceResponse)
    ensures
        response@ == refusal(code@, message@, retryable),
{
    GuidanceResponse::Error {
        provider_id: Some(PROVIDER_ID.to_owned()),
        code: code.to_owned(),
        message,
        retryable,
    }
}

} // verus!
