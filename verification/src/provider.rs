//! The provider: its snapshot, and what it remembers of the database.

use std::collections::BTreeMap;
use vstd::hash_map::StringHashMap;
use vstd::prelude::*;

use crate::prepare::{start, starts, PrepareStep, PreparedSnapshot};
use crate::protocol::{
    optional_text, ArtifactDescriptor, Capability, ChannelDescriptor, ChannelView,
    ConfigurationSchema, Details, Diagnostics, DiagnosticsView, GuidanceScope, Manifest,
    ManifestView, PrepareDetails, ResourceDescriptor, SchemaView, Spi, PROVIDER_ID,
    PROVIDER_VERSION,
};
use crate::ranking::{below, frequency, percentile_of, total, Percentile};

verus! {

/// The channel that the signals are sent on.
pub const CHANNEL: &'static str = "playcount";

/// A provider whose snapshot, once it is prepared, is held by a `C`.
pub struct Provider<C> {
    pub connection: Option<C>,
    pub distribution: BTreeMap<u64, u64>,
    pub eligible_count: u64,
    pub known_count: u64,
    pub zero_count: u64,
    pub cached_counts: StringHashMap<u64>,
    pub score_batches: u64,
    pub score_query_batches: u64,
    pub score_cache_hits: u64,
    pub snapshot_id: Option<String>,
    pub prepared: bool,
}

/// What a provider holds.
#[verifier::ext_equal]
pub ghost struct ProviderView<C> {
    pub connection: Option<C>,
    pub distribution: Map<u64, u64>,
    pub eligible_count: u64,
    pub known_count: u64,
    pub zero_count: u64,
    pub cached_counts: Map<Seq<char>, u64>,
    pub score_batches: u64,
    pub score_query_batches: u64,
    pub score_cache_hits: u64,
    pub snapshot_id: Option<Seq<char>>,
    pub prepared: bool,
}

impl<C> View for Provider<C> {
    type V = ProviderView<C>;

    open spec fn view(&self) -> ProviderView<C> {
        ProviderView {
            connection: self.connection,
            distribution: self.distribution@,
            eligible_count: self.eligible_count,
            known_count: self.known_count,
            zero_count: self.zero_count,
            cached_counts: self.cached_counts@,
            score_batches: self.score_batches,
            score_query_batches: self.score_query_batches,
            score_cache_hits: self.score_cache_hits,
            snapshot_id: optional_text(self.snapshot_id),
            prepared: self.prepared,
        }
    }
}

impl<C> ProviderView<C> {
    /// A provider without a snapshot.
    pub open spec fn cleared() -> Self {
        ProviderView {
            connection: None,
            distribution: Map::empty(),
            eligible_count: 0,
            known_count: 0,
            zero_count: 0,
            cached_counts: Map::empty(),
            score_batches: 0,
            score_query_batches: 0,
            score_cache_hits: 0,
            snapshot_id: None,
            prepared: false,
        }
    }

    /// A provider is cleared, or has a snapshot whose figures agree with each other.
    pub open spec fn wf(self) -> bool {
        &&& total(self.distribution) == self.eligible_count
        &&& self.zero_count == frequency(self.distribution, 0)
        &&& self.known_count <= self.eligible_count
        &&& self.prepared == self.connection is Some
        &&& self.prepared == self.snapshot_id is Some
        &&& !self.prepared ==> self == Self::cleared()
    }

    /// The provider with a snapshot installed.
    pub open spec fn with_snapshot(self, snapshot: PreparedSnapshot<C>) -> Self {
        ProviderView {
            connection: Some(snapshot.connection),
            distribution: snapshot.population.distribution@,
            eligible_count: snapshot.population.eligible_count,
            known_count: snapshot.population.known_count,
            zero_count: snapshot.population.zero_count,
            snapshot_id: Some(snapshot.snapshot_id@),
            prepared: true,
            ..self
        }
    }
}

/// The manifest of a provider of an SPI.
pub open spec fn manifest_for(spi: Spi) -> ManifestView {
    ManifestView {
        spi_version: spi.version,
        provider_id: PROVIDER_ID@,
        provider_version: PROVIDER_VERSION@,
        protocol: spi.protocol@,
        capabilities: seq![Capability::GlobalCandidateGuidance],
        channels: seq![ChannelView { channel: CHANNEL@, scopes: seq![GuidanceScope::Global] }],
        required_context: seq!["candidate_identity"@],
        configuration_schema: Some(
            SchemaView { value_type: "object"@, additional_properties: false },
        ),
    }
}

proof fn lemma_empty_total(bound: nat)
    ensures
        below(Map::empty(), bound) == 0,
    decreases bound,
{
    if bound > 0 {
        lemma_empty_total((bound - 1) as nat);
    }
}

impl<C> Default for Provider<C> {
    /// A provider without a snapshot.
    fn default() -> (provider: Self)
        ensures
            provider@ == ProviderView::<C>::cleared(),
            provider@.wf(),
    {
        proof {
            lemma_empty_total((u64::MAX + 1) as nat);
        }
        Provider {
            connection: None,
            distribution: BTreeMap::new(),
            eligible_count: 0,
            known_count: 0,
            zero_count: 0,
            cached_counts: StringHashMap::new(),
            score_batches: 0,
            score_query_batches: 0,
            score_cache_hits: 0,
            snapshot_id: None,
            prepared: false,
        }
    }
}

impl<C> Provider<C> {
    /// Describes the provider.
    pub fn manifest(spi: &Spi) -> (manifest: Manifest)
        ensures
            manifest@ == manifest_for(*spi),
    {
        let manifest = Manifest {
            spi_version: spi.version,
            provider_id: PROVIDER_ID.to_owned(),
            provider_version: PROVIDER_VERSION.to_owned(),
            protocol: spi.protocol.clone(),
            capabilities: vec![Capability::GlobalCandidateGuidance],
            channels: vec![
                ChannelDescriptor {
                    channel: CHANNEL.to_owned(),
                    scopes: vec![GuidanceScope::Global],
                },
            ],
            required_context: vec!["candidate_identity".to_owned()],
            configuration_schema: Some(
                ConfigurationSchema {
                    value_type: "object".to_owned(),
                    additional_properties: false,
                },
            ),
        };
        assert(manifest@.capabilities =~= manifest_for(*spi).capabilities);
        assert(manifest.channels@[0]@.scopes =~= seq![GuidanceScope::Global]);
        assert(manifest@.channels =~= manifest_for(*spi).channels);
        assert(manifest@.required_context =~= manifest_for(*spi).required_context);
        manifest
    }

    /// Forgets the snapshot and all that was learned from it, and gives up what held it.
    pub fn reset(&mut self) -> (released: Option<C>)
        ensures
            final(self)@ == ProviderView::<C>::cleared(),
            final(self)@.wf(),
            released == old(self).connection,
    {
        let released = self.connection.take();
        self.distribution.clear();
        self.cached_counts.clear();
        self.eligible_count = 0;
        self.known_count = 0;
        self.zero_count = 0;
        self.score_batches = 0;
        self.score_query_batches = 0;
        self.score_cache_hits = 0;
        self.snapshot_id = None;
        self.prepared = false;
        proof {
            lemma_empty_total((u64::MAX + 1) as nat);
        }
        released
    }

    /// Gives up the current snapshot and begins to prepare a new one.
    pub fn prepare<'a>(
        &mut self,
        artifacts: &'a [ArtifactDescriptor],
        resources: &'a [ResourceDescriptor],
    ) -> (begun: (Option<C>, PrepareStep<'a, C>))
        ensures
            final(self)@ == ProviderView::<C>::cleared(),
            final(self)@.wf(),
            begun.0 == old(self).connection,
            starts(artifacts@, resources@, begun.1),
    {
        let released = self.reset();
        (released, start(artifacts, resources))
    }

    /// Installs a snapshot, whose preparation took `elapsed_ms`.
    pub fn install(&mut self, snapshot: PreparedSnapshot<C>, elapsed_ms: u128) -> (installed: (
        Option<String>,
        Diagnostics,
    ))
        ensures
            final(self)@ == old(self)@.with_snapshot(snapshot),
            snapshot.population.wf() ==> final(self)@.wf(),
            optional_text(installed.0) == Some(snapshot.snapshot_id@),
            installed.1@ == prepared_diagnostics(snapshot, elapsed_ms),
    {
        let snapshot_id = snapshot.snapshot_id;
        self.connection = Some(snapshot.connection);
        self.distribution = snapshot.population.distribution;
        self.eligible_count = snapshot.population.eligible_count;
        self.known_count = snapshot.population.known_count;
        self.zero_count = snapshot.population.zero_count;
        self.snapshot_id = Some(snapshot_id.clone());
        self.prepared = true;
        (
            Some(snapshot_id),
            Diagnostics {
                state: Some("fresh".to_owned()),
                request_count: 1,
                failure_count: 0,
                details: Some(
                    Details::Prepare(
                        PrepareDetails {
                            eligible_candidates: self.eligible_count,
                            known_counts: self.known_count,
                            zero_counts: self.zero_count,
                            distinct_play_counts: self.distribution.len(),
                            prepare_query_batches: snapshot.query_batches,
                            elapsed_ms,
                        },
                    ),
                ),
            },
        )
    }

    /// The percentile of a play count among the eligible candidates.
    pub fn percentile(&self, count: u64) -> (percentile: Percentile)
        requires
            self.eligible_count <= 1 || below(self.distribution@, count as nat) <= u64::MAX,
        ensures
            percentile == percentile_of(self.distribution@, self.eligible_count, count),
    {
        crate::ranking::percentile(&self.distribution, self.eligible_count, count)
    }
}

/// The diagnostics of a successful preparation.
pub open spec fn prepared_diagnostics<C>(
    snapshot: PreparedSnapshot<C>,
    elapsed_ms: u128,
) -> DiagnosticsView {
    DiagnosticsView {
        state: Some("fresh"@),
        request_count: 1,
        failure_count: 0,
        details: Some(
            Details::Prepare(
                PrepareDetails {
                    eligible_candidates: snapshot.population.eligible_count,
                    known_counts: snapshot.population.known_count,
                    zero_counts: snapshot.population.zero_count,
                    distinct_play_counts: snapshot.population.distribution@.len() as usize,
                    prepare_query_batches: snapshot.query_batches,
                    elapsed_ms,
                },
            ),
        ),
    }
}

} // verus!
