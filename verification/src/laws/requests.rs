//! What the program is called for, and how each request is taken.

use vstd::prelude::*;

use crate::laws::guidance::{lemma_score_begun, score_begun};
use crate::laws::steps::{lemma_preparation_begun, preparation_begun};
use crate::laws::terms::{describes, empty_handed, lemma_writes, refuses, writes};
use crate::protocol::{
    refuse, Diagnostics, GuidanceRequest, GuidanceResponse, Manifest, Spi,
};
use crate::provider::{manifest_for, Provider};
use crate::service::{
    ends_session, handle, input_failed, invalid_request, parse_command, prepare_response,
    unsupported_version, version_line, version_metadata_json, Command, Reply, Turn,
};
use crate::text::texts;

verus! {

proof fn lemma_describes(manifest: Manifest, spi: Spi)
    requires
        manifest@ == manifest_for(spi),
    ensures
        describes(manifest, spi),
{
    let view = manifest@;
    assert(view.capabilities.len() == manifest.capabilities@.len());
    assert(view.channels.len() == manifest.channels@.len());
    assert(view.channels[0] == manifest.channels@[0]@);
    assert(view.required_context.len() == manifest.required_context@.len());
    assert(view.required_context[0] == manifest.required_context@[0]@);
}

/// A manifest carries the version and the protocol of the SPI that the host defines,
/// and describes the provider on its one channel.
pub proof fn law_manifests_follow_the_host<C>(spi: Spi, manifest: Manifest)
    requires
        call_ensures(Provider::<C>::manifest, (&spi,), manifest),
    ensures
        manifest.spi_version == spi.version,
        manifest.protocol@ == spi.protocol@,
        describes(manifest, spi),
{
    lemma_describes(manifest, spi);
}

/// Two hosts are told apart: their manifests agree on version and protocol exactly
/// where their SPIs do.
pub proof fn law_manifests_tell_hosts_apart<C>(a: Spi, b: Spi, first: Manifest, second: Manifest)
    requires
        call_ensures(Provider::<C>::manifest, (&a,), first),
        call_ensures(Provider::<C>::manifest, (&b,), second),
    ensures
        first.spi_version == second.spi_version <==> a.version == b.version,
        first.protocol@ == second.protocol@ <==> a.protocol@ == b.protocol@,
{
}

/// A request of another SPI version is refused with the version that is supported.
pub open spec fn refuses_version(response: GuidanceResponse, supported: u64) -> bool {
    exists|digits: Seq<char>| #[trigger]
        writes(digits, supported as nat) && refuses(
            response,
            "UNSUPPORTED_SPI_VERSION"@,
            "provider supports SPI version "@ + digits,
            false,
        )
}

/// A refusal for the SPI version names the version that is supported.
pub proof fn law_version_refusals_name_the_version(supported: u64, response: GuidanceResponse)
    requires
        call_ensures(unsupported_version, (supported,), response),
    ensures
        refuses_version(response, supported),
{
    lemma_writes(supported as nat);
}

/// A refusal says what it is given.
pub proof fn law_refusals_say_what_they_are_given(
    code: &str,
    message: String,
    retryable: bool,
    response: GuidanceResponse,
)
    requires
        call_ensures(refuse, (code, message, retryable), response),
    ensures
        refuses(response, code@, message@, retryable),
{
}

/// Input that cannot be read is answered with what went wrong.
pub proof fn law_failed_input_is_refused(error: String, response: GuidanceResponse)
    requires
        call_ensures(input_failed, (error,), response),
    ensures
        refuses(response, "INPUT_FAILED"@, error@, false),
{
}

/// A line that is no request is answered with what is wrong with it.
pub proof fn law_invalid_requests_are_refused(error: String, response: GuidanceResponse)
    requires
        call_ensures(invalid_request, (error,), response),
    ensures
        refuses(response, "INVALID_REQUEST"@, error@, false),
{
}

/// A session ends with the response that closes it, and with no other.
pub proof fn law_sessions_end_when_closed(response: GuidanceResponse, ends: bool)
    requires
        call_ensures(ends_session, (&response,), ends),
    ensures
        ends == (response is Closed),
{
}

/// A preparation is answered with what was installed, or refused with what went wrong.
pub proof fn law_preparations_are_answered(
    outcome: Result<(Option<String>, Diagnostics), String>,
    response: GuidanceResponse,
)
    requires
        call_ensures(prepare_response, (outcome,), response),
    ensures
        match outcome {
            Ok((installed_id, figures)) => match response {
                GuidanceResponse::Prepared { provider_id, snapshot_id, diagnostics } => {
                    &&& provider_id@ == "playcount-guidance"@
                    &&& snapshot_id is Some == installed_id is Some
                    &&& snapshot_id is Some ==> snapshot_id->0@ == installed_id->0@
                    &&& diagnostics.state is Some == figures.state is Some
                    &&& diagnostics.state is Some ==> diagnostics.state->0@ == figures.state->0@
                    &&& diagnostics.request_count == figures.request_count
                    &&& diagnostics.failure_count == figures.failure_count
                    &&& diagnostics.details == figures.details
                },
                _ => false,
            },
            Err(message) => refuses(response, "PREPARE_FAILED"@, message@, true),
        },
{
}

/// The program serves without arguments, prints its version or its metadata where
/// exactly that is asked for, and explains itself otherwise.
pub proof fn law_arguments_are_taken_literally(args: &[String], command: Command)
    requires
        call_ensures(parse_command, (args,), command),
    ensures
        command is Serve <==> args@.len() == 0,
        command is Version <==> args@.len() == 1 && args@[0]@ == "version"@,
        command is VersionJson <==> args@.len() == 2 && args@[0]@ == "version"@ && args@[1]@
            == "--json"@,
        command is Usage <==> !(command is Serve) && !(command is Version) && !(
        command is VersionJson),
{
    let list = texts(args@);
    assert(list.len() == args@.len());
    if args@.len() == 1 {
        assert(list[0] == args@[0]@);
        if args@[0]@ == "version"@ {
            assert(list =~= seq!["version"@]);
        }
    }
    if args@.len() == 2 {
        assert(list[0] == args@[0]@ && list[1] == args@[1]@);
        if args@[0]@ == "version"@ && args@[1]@ == "--json"@ {
            assert(list =~= seq!["version"@, "--json"@]);
        }
    }
    if list == seq!["version"@] {
        assert(list[0] == "version"@);
    }
    if list == seq!["version"@, "--json"@] {
        assert(list[0] == "version"@ && list[1] == "--json"@);
    }
}

/// The metadata names the program, its version, the provider and the SPI version.
pub proof fn law_metadata_names_the_spi_version(spi_version: u64, json: String)
    requires
        call_ensures(version_metadata_json, (spi_version,), json),
    ensures
        exists|digits: Seq<char>| #[trigger]
            writes(digits, spi_version as nat) && json@
                == "{\"schema_version\":1,\"program\":\""@ + "bliss-guidance-playcounts"@
                + "\",\"version\":\""@ + "0.1.0"@ + "\",\"provider_id\":\""@
                + "playcount-guidance"@ + "\",\"spi_version\":"@ + digits + "}"@,
{
    lemma_writes(spi_version as nat);
}

/// The version line names the program and its version.
pub proof fn law_version_lines_name_the_program(line: String)
    requires
        call_ensures(version_line, (), line),
    ensures
        line@ == "bliss-guidance-playcounts"@ + " "@ + "0.1.0"@,
{
}

/// A turn answers at once, and gives nothing up.
pub open spec fn answers_at_once<C>(turn: Turn<C>) -> bool {
    turn.released is None && turn.reply is Respond
}

/// Requests of the host's SPI version are taken, and others refused without touching
/// the provider; a description carries the host's SPI; a close always works.
pub proof fn law_requests_are_taken_for_what_they_are<'a, C>(
    provider: &mut Provider<C>,
    spi: Spi,
    request: &'a GuidanceRequest,
    turn: Turn<'a, C>,
)
    requires
        call_ensures(handle::<C>, (provider, &spi, request), turn),
    ensures
        match *request {
            GuidanceRequest::Describe { spi_version } => {
                &&& *final(provider) == *old(provider)
                &&& answers_at_once(turn)
                &&& if spi_version == spi.version {
                    &&& turn.reply->Respond_0 matches GuidanceResponse::Manifest(manifest)
                    &&& manifest.spi_version == spi.version
                    &&& manifest.protocol@ == spi.protocol@
                    &&& describes(manifest, spi)
                } else {
                    refuses_version(turn.reply->Respond_0, spi.version)
                }
            },
            GuidanceRequest::Prepare { spi_version, artifacts, resources } => {
                if spi_version == spi.version {
                    &&& empty_handed(*final(provider))
                    &&& turn.released == old(provider).connection
                    &&& turn.reply matches Reply::Prepare(step)
                    &&& preparation_begun(artifacts@, resources@, step)
                } else {
                    &&& *final(provider) == *old(provider)
                    &&& answers_at_once(turn)
                    &&& refuses_version(turn.reply->Respond_0, spi.version)
                }
            },
            GuidanceRequest::Score { spi_version, request_id, candidates } => {
                &&& *final(provider) == *old(provider)
                &&& turn.released is None
                &&& if spi_version == spi.version {
                    turn.reply matches Reply::Score(step) && score_begun(
                        *old(provider),
                        request_id@,
                        candidates@,
                        step,
                    )
                } else {
                    answers_at_once(turn) && refuses_version(turn.reply->Respond_0, spi.version)
                }
            },
            GuidanceRequest::Close => {
                &&& empty_handed(*final(provider))
                &&& turn.released == old(provider).connection
                &&& turn.reply matches Reply::Respond(response)
                &&& response matches GuidanceResponse::Closed { provider_id }
                &&& provider_id@ == "playcount-guidance"@
            },
        },
{
    lemma_writes(spi.version as nat);
    match *request {
        GuidanceRequest::Describe { spi_version } => {
            if spi_version == spi.version {
                lemma_describes(turn.reply->Respond_0->Manifest_0, spi);
            }
        },
        GuidanceRequest::Prepare { spi_version, artifacts, resources } => {
            if spi_version == spi.version {
                lemma_preparation_begun(artifacts@, resources@, turn.reply->Prepare_0);
            }
        },
        GuidanceRequest::Score { spi_version, request_id, candidates } => {
            if spi_version == spi.version {
                lemma_score_begun(
                    *old(provider),
                    request_id@,
                    candidates@,
                    turn.reply->Score_0,
                );
            }
        },
        GuidanceRequest::Close => {},
    }
}

} // verus!
