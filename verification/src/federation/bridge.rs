//! The SSH bridge to an endpoint: what is asked over it, and what its answers come to.

use crate::federation::endpoint::{
    endpoint_stream_error, opt_snapshot, stream_error, validate_snapshot_member, wrong_member,
    Endpoint, EndpointConnectionStatus, EndpointState, FederationConfig, FederationEndpointConfig,
};
use crate::schema::SessionSnapshot;
use crate::text::{decimal, push_decimal};
use vstd::prelude::*;

verus! {

/// The time to wait for a bridge's first answer, in seconds.
pub const HANDSHAKE_TIMEOUT_SECONDS: u64 = 15;

/// The pause before a state that found no room is published again, in milliseconds.
pub const PUBLISH_PAUSE_MS: u64 = 10;

/// The id of the request that starts a watch.
pub fn watch_request_id(endpoint: &FederationEndpointConfig) -> (r: String)
    ensures
        r@ == "federation:"@ + endpoint.id@ + ":watch"@,
{
    let mut id = "federation:".to_owned();
    id.append(endpoint.id.as_str());
    id.append(":watch");
    id
}

/// Why a bridge gave no answer.
#[derive(Debug, PartialEq, Eq)]
pub enum BridgeFailure {
    /// SSH could not be started.
    NotStarted(String),
    NoInput,
    NoOutput,
    TimedOut,
    /// The thread that waited for the answer ended without one.
    WorkerStopped,
    /// The bridge closed before it answered.
    ClosedEarly,
    /// The request could not be written.
    NotAsked(String),
    /// Reading failed, or the answer could not be read.
    Stream(String),
}

/// Why a bridge gave no answer, in words.
pub open spec fn failure_words(failure: BridgeFailure) -> Seq<char> {
    match failure {
        BridgeFailure::NotStarted(err) => "failed to start ssh: "@ + err@,
        BridgeFailure::NoInput => "ssh bridge stdin is unavailable"@,
        BridgeFailure::NoOutput => "ssh bridge stdout is unavailable"@,
        BridgeFailure::TimedOut => "federation bridge produced no response within "@ + decimal(
            HANDSHAKE_TIMEOUT_SECONDS as nat,
        ) + " seconds"@,
        BridgeFailure::WorkerStopped => "federation bridge response worker stopped"@,
        BridgeFailure::ClosedEarly => "bridge closed without a response"@,
        BridgeFailure::NotAsked(err) | BridgeFailure::Stream(err) => err@,
    }
}

fn failure_text(failure: &BridgeFailure) -> (r: String)
    ensures
        r@ == failure_words(*failure),
{
    match failure {
        BridgeFailure::NotStarted(err) => {
            let mut text = "failed to start ssh: ".to_owned();
            text.append(err.as_str());
            text
        },
        BridgeFailure::NoInput => "ssh bridge stdin is unavailable".to_owned(),
        BridgeFailure::NoOutput => "ssh bridge stdout is unavailable".to_owned(),
        BridgeFailure::TimedOut => {
            let mut text = "federation bridge produced no response within ".to_owned();
            push_decimal(&mut text, HANDSHAKE_TIMEOUT_SECONDS);
            text.append(" seconds");
            text
        },
        BridgeFailure::WorkerStopped => "federation bridge response worker stopped".to_owned(),
        BridgeFailure::ClosedEarly => "bridge closed without a response".to_owned(),
        BridgeFailure::NotAsked(err) => err.clone(),
        BridgeFailure::Stream(err) => err.clone(),
    }
}

/// There was no bridge to ask over.
pub open spec fn has_no_bridge(failure: BridgeFailure) -> bool {
    failure is NotStarted || failure is NoInput || failure is NoOutput
}

/// The words of a failed exchange: that there is no bridge is told as it is, anything later with the
/// endpoint and what SSH printed.
pub open spec fn exchange_error(
    endpoint: FederationEndpointConfig,
    context: Seq<char>,
    failure: BridgeFailure,
    stderr: Seq<char>,
) -> Seq<char> {
    if has_no_bridge(failure) {
        failure_words(failure)
    } else {
        stream_error(endpoint.id@, context, failure_words(failure), stderr)
    }
}

fn exchange_text(
    endpoint: &FederationEndpointConfig,
    context: &str,
    failure: &BridgeFailure,
    stderr: &str,
) -> (r: String)
    ensures
        r@ == exchange_error(*endpoint, context@, *failure, stderr@),
{
    let text = failure_text(failure);
    match failure {
        BridgeFailure::NotStarted(_) | BridgeFailure::NoInput | BridgeFailure::NoOutput => text,
        _ => endpoint_stream_error(endpoint, context, text.as_str(), stderr),
    }
}

/// What the request that starts a watch came to.
#[derive(Debug, PartialEq, Eq)]
pub enum WatchReply {
    Started { cursor: u64, snapshot: Option<SessionSnapshot> },
    /// An answer to something else.
    Unexpected,
    Failed { failure: BridgeFailure, stderr: String },
}

/// The state of an endpoint whose watch started, or why it did not start. That the request could not
/// be written is told as it is.
pub fn accept_watch(endpoint: &FederationEndpointConfig, reply: WatchReply) -> (r: Result<
    EndpointState,
    String,
>)
    ensures
        match reply {
            WatchReply::Failed { failure, stderr } => r matches Err(text) && text@ == (
            if failure is NotAsked {
                failure_words(failure)
            } else {
                exchange_error(*endpoint, "watch handshake failed"@, failure, stderr@)
            }),
            WatchReply::Unexpected => r matches Err(text) && text@ == "endpoint "@ + endpoint.id@
                + " returned an unexpected watch response"@,
            WatchReply::Started { cursor, snapshot } => if snapshot matches Some(s)
                && s.identity.member_id@ != endpoint.id@ {
                r matches Err(text) && text@ == wrong_member(*endpoint, snapshot->0.identity)
            } else {
                r matches Ok(state) && state@ == (Endpoint {
                    endpoint: *endpoint,
                    status: EndpointConnectionStatus::Connected,
                    snapshot: opt_snapshot(snapshot),
                    cursor: Some(cursor),
                    error: None,
                })
            },
        },
{
    match reply {
        WatchReply::Failed { failure, stderr } => match failure {
            BridgeFailure::NotAsked(err) => Err(err),
            _ => Err(exchange_text(endpoint, "watch handshake failed", &failure, stderr.as_str())),
        },
        WatchReply::Unexpected => {
            let mut text = "endpoint ".to_owned();
            text.append(endpoint.id.as_str());
            text.append(" returned an unexpected watch response");
            Err(text)
        },
        WatchReply::Started { cursor, snapshot } => {
            if let Some(found) = &snapshot {
                match validate_snapshot_member(endpoint, found) {
                    Ok(_) => {},
                    Err(text) => return Err(text),
                }
            }
            Ok(
                EndpointState {
                    endpoint: endpoint.clone(),
                    status: EndpointConnectionStatus::Connected,
                    snapshot,
                    cursor: Some(cursor),
                    error: None,
                },
            )
        },
    }
}

/// Why a single request over a bridge failed.
pub fn request_error(endpoint: &FederationEndpointConfig, failure: &BridgeFailure, stderr: &str) -> (r:
    String)
    ensures
        r@ == exchange_error(*endpoint, "request failed"@, *failure, stderr@),
{
    exchange_text(endpoint, "request failed", failure, stderr)
}

/// What is known of the local server that a bridge is to lead to.
#[derive(Debug, PartialEq, Eq)]
pub struct LocalStatus {
    /// It can be watched.
    pub session_watch: Option<bool>,
}

/// Whether a bridge may lead to the local server.
pub fn check_local_server(status: Option<LocalStatus>) -> (r: Result<(), &'static str>)
    ensures
        match status {
            None => r matches Err(text) && text@ == "local Herdr status API is unavailable"@,
            Some(known) => if known.session_watch == Some(true) {
                r is Ok
            } else {
                r matches Err(text) && text@
                    == "local Herdr server does not support federation session.watch"@
            },
        },
{
    match status {
        None => Err("local Herdr status API is unavailable"),
        Some(known) => match known.session_watch {
            Some(true) => Ok(()),
            _ => Err("local Herdr server does not support federation session.watch"),
        },
    }
}

/// The endpoints that are watched.
pub open spec fn watched(config: FederationConfig) -> Seq<FederationEndpointConfig> {
    if config.enabled {
        config.endpoints@.filter(|endpoint: FederationEndpointConfig| endpoint.enabled)
    } else {
        Seq::empty()
    }
}

/// The endpoints that are watched: the enabled ones of a federation that is enabled.
pub fn watched_endpoints(config: &FederationConfig) -> (r: Vec<FederationEndpointConfig>)
    ensures
        r@ == watched(*config),
{
    let mut out: Vec<FederationEndpointConfig> = Vec::new();
    if !config.enabled {
        return out;
    }
    let ghost all = config.endpoints@;
    let ghost keep = |endpoint: FederationEndpointConfig| endpoint.enabled;
    let mut i: usize = 0;
    proof {
        reveal(Seq::filter);
        assert(all.take(0) =~= Seq::<FederationEndpointConfig>::empty());
        assert(out@ =~= all.take(0).filter(keep));
    }
    while i < config.endpoints.len()
        invariant
            all == config.endpoints@,
            keep == (|endpoint: FederationEndpointConfig| endpoint.enabled),
            i <= all.len(),
            out@ == all.take(i as int).filter(keep),
        decreases all.len() - i,
    {
        proof {
            reveal(Seq::filter);
            assert(all.take(i + 1).drop_last() =~= all.take(i as int));
            assert(all.take(i + 1).last() == all[i as int]);
        }
        if config.endpoints[i].enabled {
            out.push(config.endpoints[i].clone());
        }
        i += 1;
    }
    assert(all.take(i as int) =~= all);
    out
}

/// What handing on a watched state came to.
#[derive(Debug, PartialEq, Eq)]
pub enum Handing {
    Taken,
    /// There was no room.
    Full,
    /// Nobody takes states any more.
    Closed,
}

/// What a watcher does with a state.
#[derive(Debug, Clone, Copy, PartialEq, Eq, Structural)]
pub enum PublishStep {
    /// The state was wanted; the watch goes on.
    Wanted,
    /// The watch ends.
    Unwanted,
    /// The state is handed on again after a pause.
    Again,
}

/// What a watcher does with a state. States of watchers of an earlier configuration are not wanted.
pub fn publish_step(generation: u64, expected_generation: u64, handing: Handing, running: bool) -> (r:
    PublishStep)
    ensures
        r == (if generation != expected_generation {
            PublishStep::Unwanted
        } else {
            match handing {
                Handing::Taken => PublishStep::Wanted,
                Handing::Full => if running {
                    PublishStep::Again
                } else {
                    PublishStep::Unwanted
                },
                Handing::Closed => PublishStep::Unwanted,
            }
        }),
{
    if generation != expected_generation {
        return PublishStep::Unwanted;
    }
    match handing {
        Handing::Taken => PublishStep::Wanted,
        Handing::Full => if running {
            PublishStep::Again
        } else {
            PublishStep::Unwanted
        },
        Handing::Closed => PublishStep::Unwanted,
    }
}

/// Exactly the enabled endpoints of an enabled federation are watched, each as it is configured and
/// in the order of the configuration.
pub proof fn enabled_endpoints_are_watched(config: FederationConfig, one: FederationEndpointConfig)
    ensures
        !config.enabled ==> watched(config).len() == 0,
        config.enabled ==> (watched(config).contains(one) <==> config.endpoints@.contains(one)
            && one.enabled),
        config.enabled && (forall|i: int|
            0 <= i < config.endpoints@.len() ==> (#[trigger] config.endpoints@[i]).enabled) ==> watched(
            config,
        ) == config.endpoints@,
{
    let keep = |endpoint: FederationEndpointConfig| endpoint.enabled;
    let all = config.endpoints@;
    if config.enabled && watched(config).contains(one) {
        let i = choose|i: int| 0 <= i < watched(config).len() && watched(config)[i] == one;
        all.lemma_filter_contains_rev(keep, one);
        all.lemma_filter_pred(keep, i);
    }
    if config.enabled && one.enabled && all.contains(one) {
        let i = choose|i: int| 0 <= i < all.len() && all[i] == one;
        all.lemma_filter_contains(keep, i);
    }
    if forall|i: int| 0 <= i < all.len() ==> (#[trigger] all[i]).enabled {
        lemma_all_kept(all);
    }
}

proof fn lemma_all_kept(all: Seq<FederationEndpointConfig>)
    requires
        forall|i: int| 0 <= i < all.len() ==> (#[trigger] all[i]).enabled,
    ensures
        all.filter(|endpoint: FederationEndpointConfig| endpoint.enabled) == all,
    decreases all.len(),
{
    reveal(Seq::filter);
    if all.len() > 0 {
        assert forall|i: int| 0 <= i < all.drop_last().len() implies (#[trigger] all.drop_last()[i]).enabled by {
            assert(all[i].enabled);
        }
        lemma_all_kept(all.drop_last());
        assert(all.drop_last().push(all.last()) =~= all);
    }
}

} // verus!
