//! The provider as a program: its command line, and what it answers to each request.

use vstd::prelude::*;
use vstd::string::StringExecFns;

use crate::prepare::{starts, PrepareStep};
use crate::protocol::{
    optional_text, refusal, refuse, Diagnostics, GuidanceRequest, GuidanceResponse, ResponseView,
    Spi, PROGRAM, PROVIDER_ID, PROVIDER_VERSION,
};
use crate::provider::{manifest_for, Provider, ProviderView};
use crate::score::{begins, ScoreStep};
use crate::text::{concat, concat3, decimal, decimal_text, same_text, texts};

verus! {

/// The metadata of the program, as one line of JSON.
pub open spec fn version_metadata(spi_version: u64) -> Seq<char> {
    "{\"schema_version\":1,\"program\":\""@ + PROGRAM@ + "\",\"version\":\""@ + PROVIDER_VERSION@
        + "\",\"provider_id\":\""@ + PROVIDER_ID@ + "\",\"spi_version\":"@ + decimal(
        spi_version as nat,
    ) + "}"@
}

/// Writes the metadata of the program, for a provider of SPI version `spi_version`.
pub fn version_metadata_json(spi_version: u64) -> (json: String)
    ensures
        json@ == version_metadata(spi_version),
{
    let mut json = "{\"schema_version\":1,\"program\":\"".to_owned();
    json.append(PROGRAM);
    json.append("\",\"version\":\"");
    json.append(PROVIDER_VERSION);
    json.append("\",\"provider_id\":\"");
    json.append(PROVIDER_ID);
    json.append("\",\"spi_version\":");
    json.append(decimal_text(spi_version).as_str());
    json.append("}");
    json
}

/// How the program is called.
pub fn usage() -> (text: &'static str)
    ensures
        text@ == "Usage:\n  bliss-guidance-playcounts version [--json]\n  bliss-guidance-playcounts"@,
{
    "Usage:\n  bliss-guidance-playcounts version [--json]\n  bliss-guidance-playcounts"
}

/// What the program is called for.
#[derive(Clone, Copy, Debug, PartialEq, Eq, Structural)]
pub enum Command {
    /// Answer requests.
    Serve,
    /// Print the version.
    Version,
    /// Print the metadata.
    VersionJson,
    /// Print the usage and fail.
    Usage,
}

/// What arguments call for.
pub open spec fn command_of(args: Seq<Seq<char>>) -> Command {
    if args.len() == 0 {
        Command::Serve
    } else if args == seq!["version"@] {
        Command::Version
    } else if args == seq!["version"@, "--json"@] {
        Command::VersionJson
    } else {
        Command::Usage
    }
}

/// Reads the arguments of the program, without its name.
pub fn parse_command(args: &[String]) -> (command: Command)
    ensures
        command == command_of(texts(args@)),
{
    if args.len() == 0 {
        Command::Serve
    } else if args.len() == 1 && same_text(args[0].as_str(), "version") {
        assert(texts(args@) =~= seq!["version"@]);
        Command::Version
    } else if args.len() == 2 && same_text(args[0].as_str(), "version") && same_text(
        args[1].as_str(),
        "--json",
    ) {
        assert(texts(args@) =~= seq!["version"@, "--json"@]);
        Command::VersionJson
    } else {
        proof {
            if texts(args@) == seq!["version"@] {
                assert(texts(args@)[0] == "version"@);
            }
            if texts(args@) == seq!["version"@, "--json"@] {
                assert(texts(args@)[0] == "version"@);
                assert(texts(args@)[1] == "--json"@);
            }
        }
        Command::Usage
    }
}

/// The name and version of the program.
pub fn version_line() -> (line: String)
    ensures
        line@ == PROGRAM@ + " "@ + PROVIDER_VERSION@,
{
    concat3(PROGRAM, " ", PROVIDER_VERSION)
}

/// The answer to a request of an SPI version other than `supported`.
pub open spec fn version_refusal(supported: u64) -> ResponseView {
    refusal(
        "UNSUPPORTED_SPI_VERSION"@,
        "provider supports SPI version "@ + decimal(supported as nat),
        false,
    )
}

/// Refuses a request of an SPI version other than `supported`.
pub fn unsupported_version(supported: u64) -> (response: GuidanceResponse)
    ensures
        response@ == version_refusal(supported),
{
    let message = concat("provider supports SPI version ", decimal_text(supported).as_str());
    refuse("UNSUPPORTED_SPI_VERSION", message, false)
}

/// Answers input that could not be read.
pub fn input_failed(error: String) -> (response: GuidanceResponse)
    ensures
        response@ == refusal("INPUT_FAILED"@, error@, false),
{
    refuse("INPUT_FAILED", error, false)
}

/// Answers a line that is no request.
pub fn invalid_request(error: String) -> (response: GuidanceResponse)
    ensures
        response@ == refusal("INVALID_REQUEST"@, error@, false),
{
    refuse("INVALID_REQUEST", error, false)
}

/// Whether a response is the last one of a session.
pub fn ends_session(response: &GuidanceResponse) -> (ends: bool)
    ensures
        ends == (response@ is Closed),
{
    match response {
        GuidanceResponse::Closed { .. } => true,
        _ => false,
    }
}

/// How a preparation that ended is answered.
pub fn prepare_response(outcome: Result<(Option<String>, Diagnostics), String>) -> (response:
    GuidanceResponse)
    ensures
        response@ == (match outcome {
            Ok((snapshot_id, diagnostics)) => ResponseView::Prepared {
                provider_id: PROVIDER_ID@,
                snapshot_id: optional_text(snapshot_id),
                diagnostics: diagnostics@,
            },
            Err(message) => refusal("PREPARE_FAILED"@, message@, true),
        }),
{
    match outcome {
        Ok((snapshot_id, diagnostics)) => GuidanceResponse::Prepared {
            provider_id: PROVIDER_ID.to_owned(),
            snapshot_id,
            diagnostics,
        },
        Err(message) => refuse("PREPARE_FAILED", message, true),
    }
}

/// What a request leads to: an answer, or work that needs the outside first.
pub enum Reply<'a, C> {
    Respond(GuidanceResponse),
    Prepare(PrepareStep<'a, C>),
    Score(ScoreStep<'a>),
}

/// What a request leads to, and the snapshot that it gives up.
pub struct Turn<'a, C> {
    pub released: Option<C>,
    pub reply: Reply<'a, C>,
}

impl<'a, C> Turn<'a, C> {
    /// The request is answered at once, and the provider stays as it is.
    pub open spec fn answers(self, response: ResponseView) -> bool {
        &&& self.released is None
        &&& self.reply matches Reply::Respond(given)
        &&& given@ == response
    }
}

/// Takes a request. One of another SPI version is refused, except that any session
/// can be closed.
pub fn handle<'a, C>(
    provider: &mut Provider<C>,
    spi: &Spi,
    request: &'a GuidanceRequest,
) -> (turn: Turn<'a, C>)
    ensures
        match *request {
            GuidanceRequest::Describe { spi_version } => {
                &&& *final(provider) == *old(provider)
                &&& turn.answers(
                    if spi_version == spi.version {
                        ResponseView::Manifest(manifest_for(*spi))
                    } else {
                        version_refusal(spi.version)
                    },
                )
            },
            GuidanceRequest::Prepare { spi_version, artifacts, resources } => {
                if spi_version == spi.version {
                    &&& final(provider)@ == ProviderView::<C>::cleared()
                    &&& turn.released == old(provider).connection
                    &&& turn.reply matches Reply::Prepare(step)
                    &&& starts(artifacts@, resources@, step)
                } else {
                    &&& *final(provider) == *old(provider)
                    &&& turn.answers(version_refusal(spi.version))
                }
            },
            GuidanceRequest::Score { spi_version, request_id, candidates } => {
                &&& *final(provider) == *old(provider)
                &&& if spi_version == spi.version {
                    &&& turn.released is None
                    &&& turn.reply matches Reply::Score(step)
                    &&& begins(old(provider)@, request_id@, candidates@, step)
                } else {
                    turn.answers(version_refusal(spi.version))
                }
            },
            GuidanceRequest::Close => {
                &&& final(provider)@ == ProviderView::<C>::cleared()
                &&& turn.released == old(provider).connection
                &&& turn.reply matches Reply::Respond(response)
                &&& response@ == (ResponseView::Closed { provider_id: PROVIDER_ID@ })
            },
        },
        old(provider)@.wf() ==> final(provider)@.wf(),
{
    match request {
        GuidanceRequest::Describe { spi_version } => {
            let response = if *spi_version == spi.version {
                GuidanceResponse::Manifest(Provider::<C>::manifest(spi))
            } else {
                unsupported_version(spi.version)
            };
            Turn { released: None, reply: Reply::Respond(response) }
        },
        GuidanceRequest::Prepare { spi_version, artifacts, resources } => {
            if *spi_version != spi.version {
                return Turn {
                    released: None,
                    reply: Reply::Respond(unsupported_version(spi.version)),
                };
            }
            let (released, step) = provider.prepare(artifacts.as_slice(), resources.as_slice());
            Turn { released, reply: Reply::Prepare(step) }
        },
        GuidanceRequest::Score { spi_version, request_id, candidates } => {
            if *spi_version == spi.version {
                let step = provider.score(request_id.as_str(), candidates.as_slice());
                Turn { released: None, reply: Reply::Score(step) }
            } else {
                Turn { released: None, reply: Reply::Respond(unsupported_version(spi.version)) }
            }
        },
        GuidanceRequest::Close => {
            let released = provider.reset();
            Turn {
                released,
                reply: Reply::Respond(
                    GuidanceResponse::Closed { provider_id: PROVIDER_ID.to_owned() },
                ),
            }
        },
    }
}

} // verus!
