//! The watch of an endpoint: connect, follow its events, reconnect.
//!
//! The watch decides; connecting, reading, waiting and publishing are done by its driver, which
//! reports what came of each. Stopping the watch, or a state that nobody wants any more, ends it.

use crate::federation::endpoint::{
    classify_error, duplicate_option, error_status, opt_snapshot, unconnected,
    validate_snapshot_member, wrong_member, Endpoint, EndpointConnectionStatus, EndpointState,
    FederationEndpointConfig, FIRST_BACKOFF_SECONDS, LAST_BACKOFF_SECONDS,
};
use crate::federation::projection::apply_event;
use crate::schema::{SequencedEventEnvelope, SessionSnapshot, SessionWatchParams, Snapshot};
use crate::text::{opt_text, pattern_from};
use vstd::prelude::*;

verus! {

/// What the watch is waiting for.
#[derive(Debug, Clone, Copy, PartialEq, Eq, Structural)]
pub enum WatchPhase {
    /// Nothing has happened yet.
    Idle,
    /// A state was published; whether it was wanted decides between going on and ending.
    Publishing(AfterPublish),
    Connecting,
    Reading,
    Waiting,
    Ended,
}

/// What comes after a published state.
#[derive(Debug, Clone, Copy, PartialEq, Eq, Structural)]
pub enum AfterPublish {
    End,
    Connect,
    Read,
    Wait,
}

/// What the driver reports.
#[derive(Debug, PartialEq, Eq)]
pub enum WatchEvent {
    /// The watch begins.
    Started,
    /// Whether the published state was wanted.
    Published(bool),
    /// The endpoint accepted the watch, from a cursor on, with a snapshot unless it resumed.
    Connected { cursor: u64, snapshot: Option<SessionSnapshot> },
    ConnectFailed(String),
    Received(SequencedEventEnvelope),
    /// The stream of events ended.
    Closed,
    ReadFailed(String),
    /// The wait is over.
    Waited,
}

/// What the driver is to do.
#[derive(Debug, PartialEq, Eq)]
pub enum WatchAction {
    Publish(EndpointState),
    Connect(SessionWatchParams),
    Read,
    /// Wait a number of seconds.
    Wait(u64),
    End,
}

/// An action, with what is published as sequences.
#[verifier::ext_equal]
pub enum Action {
    Publish(Endpoint),
    Connect(SessionWatchParams),
    Read,
    Wait(u64),
    End,
}

impl View for WatchAction {
    type V = Action;

    open spec fn view(&self) -> Action {
        match *self {
            WatchAction::Publish(state) => Action::Publish(state@),
            WatchAction::Connect(params) => Action::Connect(params),
            WatchAction::Read => Action::Read,
            WatchAction::Wait(seconds) => Action::Wait(seconds),
            WatchAction::End => Action::End,
        }
    }
}

/// The watch of one endpoint.
#[derive(Debug, PartialEq, Eq)]
pub struct EndpointWatch {
    pub endpoint: FederationEndpointConfig,
    pub cursor: Option<u64>,
    pub snapshot: Option<SessionSnapshot>,
    pub backoff: u64,
    pub phase: WatchPhase,
}

/// A watch, with its snapshot as sequences.
#[verifier::ext_equal]
pub struct Watch {
    pub endpoint: FederationEndpointConfig,
    pub cursor: Option<u64>,
    pub snapshot: Option<Snapshot>,
    pub backoff: u64,
    pub phase: WatchPhase,
}

impl View for EndpointWatch {
    type V = Watch;

    open spec fn view(&self) -> Watch {
        Watch {
            endpoint: self.endpoint,
            cursor: self.cursor,
            snapshot: opt_snapshot(self.snapshot),
            backoff: self.backoff,
            phase: self.phase,
        }
    }
}

/// The request of a watch: from the last cursor of the runtime it knew.
pub open spec fn watch_params(cursor: Option<u64>, snapshot: Option<Snapshot>) -> SessionWatchParams {
    match snapshot {
        Some(s) => SessionWatchParams {
            after_cursor: cursor,
            member_id: Some(s.identity.member_id),
            server_id: Some(s.identity.server_id),
            session_id: Some(s.identity.session_id),
        },
        None => SessionWatchParams {
            after_cursor: cursor,
            member_id: None,
            server_id: None,
            session_id: None,
        },
    }
}

/// The wait after one of `seconds`: twice as long, up to the longest.
pub open spec fn next_backoff(seconds: u64) -> u64 {
    if seconds * 2 < LAST_BACKOFF_SECONDS {
        (seconds * 2) as u64
    } else {
        LAST_BACKOFF_SECONDS
    }
}

impl Watch {
    /// The state that the watch shows.
    pub open spec fn shown(self, status: EndpointConnectionStatus, error: Option<Seq<char>>) -> Endpoint {
        Endpoint { endpoint: self.endpoint, status, snapshot: self.snapshot, cursor: self.cursor, error }
    }

    pub open spec fn ended(self) -> (Watch, Action) {
        (Watch { phase: WatchPhase::Ended, ..self }, Action::End)
    }

    pub open spec fn publishing(self, state: Endpoint, then: AfterPublish) -> (Watch, Action) {
        (Watch { phase: WatchPhase::Publishing(then), ..self }, Action::Publish(state))
    }

    /// A new attempt: it is announced, unless the watch was stopped.
    pub open spec fn attempt(self, stopped: bool) -> (Watch, Action) {
        if stopped {
            self.ended()
        } else {
            self.publishing(
                self.shown(EndpointConnectionStatus::Connecting, None),
                AfterPublish::Connect,
            )
        }
    }

    /// The endpoint was lost: that is published, unless the watch was stopped, and then comes a
    /// wait.
    pub open spec fn lost(
        self,
        status: EndpointConnectionStatus,
        message: Seq<char>,
        stopped: bool,
    ) -> (Watch, Action) {
        if stopped {
            self.ended()
        } else {
            self.publishing(self.shown(status, Some(message)), AfterPublish::Wait)
        }
    }

    /// The endpoint accepted the watch. A snapshot of another member counts as a failure; without
    /// a snapshot the known one stays, as the endpoint resumed.
    pub open spec fn connected(self, cursor: u64, snapshot: Option<Snapshot>, stopped: bool) -> (
        Watch,
        Action,
    ) {
        if snapshot matches Some(s) && s.identity.member_id@ != self.endpoint.id@ {
            let message = wrong_member(self.endpoint, snapshot->0.identity);
            self.lost(error_status(message), message, stopped)
        } else {
            let after = Watch {
                cursor: Some(cursor),
                snapshot: if snapshot is Some {
                    snapshot
                } else {
                    self.snapshot
                },
                ..self
            };
            after.publishing(
                after.shown(EndpointConnectionStatus::Connected, None),
                AfterPublish::Read,
            )
        }
    }

    /// An event arrived: the snapshot follows it.
    pub open spec fn received(self, event: SequencedEventEnvelope, stopped: bool) -> (Watch, Action) {
        let after = Watch {
            cursor: Some(event.cursor),
            snapshot: match self.snapshot {
                Some(s) => Some(
                    (Snapshot { event_cursor: event.cursor, ..s }).changed(
                        event.event,
                    ).reconciled(),
                ),
                None => None,
            },
            ..self
        };
        if stopped {
            after.ended()
        } else {
            after.publishing(
                after.shown(EndpointConnectionStatus::Connected, None),
                AfterPublish::Read,
            )
        }
    }

    /// The watch after what the driver reports, and what is to be done next. A report that the
    /// watch does not wait for ends it.
    pub open spec fn stepped(self, event: WatchEvent, stopped: bool) -> (Watch, Action) {
        match (self.phase, event) {
            (WatchPhase::Idle, WatchEvent::Started) => if self.endpoint.enabled {
                self.attempt(stopped)
            } else {
                self.publishing(unconnected(self.endpoint), AfterPublish::End)
            },
            (WatchPhase::Publishing(then), WatchEvent::Published(wanted)) => match then {
                AfterPublish::Connect if wanted => (
                    Watch { phase: WatchPhase::Connecting, ..self },
                    Action::Connect(watch_params(self.cursor, self.snapshot)),
                ),
                AfterPublish::Read if wanted => (
                    Watch { phase: WatchPhase::Reading, backoff: FIRST_BACKOFF_SECONDS, ..self },
                    Action::Read,
                ),
                AfterPublish::Wait if wanted => (
                    Watch { phase: WatchPhase::Waiting, ..self },
                    Action::Wait(self.backoff),
                ),
                _ => self.ended(),
            },
            (WatchPhase::Connecting, WatchEvent::Connected { cursor, snapshot }) => self.connected(
                cursor,
                opt_snapshot(snapshot),
                stopped,
            ),
            (WatchPhase::Connecting, WatchEvent::ConnectFailed(message)) => self.lost(
                error_status(message@),
                message@,
                stopped,
            ),
            (WatchPhase::Reading, WatchEvent::Received(event)) => self.received(event, stopped),
            (WatchPhase::Reading, WatchEvent::Closed) => self.lost(
                EndpointConnectionStatus::Disconnected,
                "federation stream closed; reconnecting"@,
                stopped,
            ),
            (WatchPhase::Reading, WatchEvent::ReadFailed(message)) => self.lost(
                error_status(message@),
                message@,
                stopped,
            ),
            (WatchPhase::Waiting, WatchEvent::Waited) => if stopped {
                self.ended()
            } else {
                (Watch { backoff: next_backoff(self.backoff), ..self }).attempt(stopped)
            },
            _ => self.ended(),
        }
    }
}

impl EndpointWatch {
    /// A watch that has not begun.
    pub fn new(endpoint: FederationEndpointConfig) -> (r: Self)
        ensures
            r@ == (Watch {
                endpoint,
                cursor: None,
                snapshot: None,
                backoff: FIRST_BACKOFF_SECONDS,
                phase: WatchPhase::Idle,
            }),
    {
        EndpointWatch {
            endpoint,
            cursor: None,
            snapshot: None,
            backoff: FIRST_BACKOFF_SECONDS,
            phase: WatchPhase::Idle,
        }
    }

    fn end(&mut self) -> (r: WatchAction)
        ensures
            (final(self)@, r@) == old(self)@.ended(),
    {
        self.phase = WatchPhase::Ended;
        WatchAction::End
    }

    fn publish(
        &mut self,
        status: EndpointConnectionStatus,
        error: Option<String>,
        then: AfterPublish,
    ) -> (r: WatchAction)
        ensures
            (final(self)@, r@) == old(self)@.publishing(
                old(self)@.shown(status, opt_text(error)),
                then,
            ),
    {
        self.phase = WatchPhase::Publishing(then);
        WatchAction::Publish(
            EndpointState {
                endpoint: self.endpoint.clone(),
                status,
                snapshot: duplicate_option(&self.snapshot),
                cursor: self.cursor,
                error,
            },
        )
    }

    fn attempt(&mut self, stopped: bool) -> (r: WatchAction)
        ensures
            (final(self)@, r@) == old(self)@.attempt(stopped),
    {
        if stopped {
            self.end()
        } else {
            self.publish(EndpointConnectionStatus::Connecting, None, AfterPublish::Connect)
        }
    }

    fn lose(
        &mut self,
        status: EndpointConnectionStatus,
        message: String,
        stopped: bool,
    ) -> (r: WatchAction)
        ensures
            (final(self)@, r@) == old(self)@.lost(status, message@, stopped),
    {
        if stopped {
            self.end()
        } else {
            self.publish(status, Some(message), AfterPublish::Wait)
        }
    }

    fn connect(&mut self, cursor: u64, snapshot: Option<SessionSnapshot>, stopped: bool) -> (r:
        WatchAction)
        ensures
            (final(self)@, r@) == old(self)@.connected(cursor, opt_snapshot(snapshot), stopped),
    {
        if let Some(found) = &snapshot {
            if let Err(message) = validate_snapshot_member(&self.endpoint, found) {
                let status = classify_error(message.as_str());
                return self.lose(status, message, stopped);
            }
        }
        self.cursor = Some(cursor);
        if snapshot.is_some() {
            self.snapshot = snapshot;
        }
        self.publish(EndpointConnectionStatus::Connected, None, AfterPublish::Read)
    }

    fn receive(&mut self, event: SequencedEventEnvelope, stopped: bool) -> (r: WatchAction)
        ensures
            (final(self)@, r@) == old(self)@.received(event, stopped),
    {
        self.cursor = Some(event.cursor);
        if let Some(snapshot) = &mut self.snapshot {
            snapshot.event_cursor = event.cursor;
            apply_event(snapshot, &event);
        }
        if stopped {
            self.end()
        } else {
            self.publish(EndpointConnectionStatus::Connected, None, AfterPublish::Read)
        }
    }

    fn params(&self) -> (r: SessionWatchParams)
        ensures
            r == watch_params(self.cursor, opt_snapshot(self.snapshot)),
    {
        match &self.snapshot {
            Some(snapshot) => SessionWatchParams {
                after_cursor: self.cursor,
                member_id: Some(snapshot.identity.member_id.clone()),
                server_id: Some(snapshot.identity.server_id.clone()),
                session_id: Some(snapshot.identity.session_id.clone()),
            },
            None => SessionWatchParams {
                after_cursor: self.cursor,
                member_id: None,
                server_id: None,
                session_id: None,
            },
        }
    }

    /// Takes what the driver reports and returns what it is to do next. `stopped` says whether the
    /// watch was asked to end.
    pub fn step(&mut self, event: WatchEvent, stopped: bool) -> (r: WatchAction)
        ensures
            (final(self)@, r@) == old(self)@.stepped(event, stopped),
    {
        match (self.phase, event) {
            (WatchPhase::Idle, WatchEvent::Started) => if self.endpoint.enabled {
                self.attempt(stopped)
            } else {
                self.phase = WatchPhase::Publishing(AfterPublish::End);
                WatchAction::Publish(EndpointState::configured(self.endpoint.clone()))
            },
            (WatchPhase::Publishing(then), WatchEvent::Published(wanted)) => match then {
                AfterPublish::Connect if wanted => {
                    self.phase = WatchPhase::Connecting;
                    WatchAction::Connect(self.params())
                },
                AfterPublish::Read if wanted => {
                    self.phase = WatchPhase::Reading;
                    self.backoff = FIRST_BACKOFF_SECONDS;
                    WatchAction::Read
                },
                AfterPublish::Wait if wanted => {
                    self.phase = WatchPhase::Waiting;
                    WatchAction::Wait(self.backoff)
                },
                _ => self.end(),
            },
            (WatchPhase::Connecting, WatchEvent::Connected { cursor, snapshot }) => self.connect(
                cursor,
                snapshot,
                stopped,
            ),
            (WatchPhase::Connecting, WatchEvent::ConnectFailed(message)) => {
                let status = classify_error(message.as_str());
                self.lose(status, message, stopped)
            },
            (WatchPhase::Reading, WatchEvent::Received(event)) => self.receive(event, stopped),
            (WatchPhase::Reading, WatchEvent::Closed) => self.lose(
                EndpointConnectionStatus::Disconnected,
                "federation stream closed; reconnecting".to_owned(),
                stopped,
            ),
            (WatchPhase::Reading, WatchEvent::ReadFailed(message)) => {
                let status = classify_error(message.as_str());
                self.lose(status, message, stopped)
            },
            (WatchPhase::Waiting, WatchEvent::Waited) => {
                if stopped {
                    return self.end();
                }
                self.backoff = if self.backoff < LAST_BACKOFF_SECONDS / 2 {
                    self.backoff * 2
                } else {
                    LAST_BACKOFF_SECONDS
                };
                self.attempt(stopped)
            },
            _ => self.end(),
        }
    }
}

/// The wait after `n` failures in a row.
pub open spec fn backoff_after(n: nat) -> u64
    decreases n,
{
    if n == 0 {
        FIRST_BACKOFF_SECONDS
    } else {
        next_backoff(backoff_after((n - 1) as nat))
    }
}

/// Waits grow from the first to the longest and stay there.
pub proof fn backoff_grows_to_its_limit(n: nat)
    ensures
        FIRST_BACKOFF_SECONDS <= backoff_after(n) <= LAST_BACKOFF_SECONDS,
        backoff_after(n) <= backoff_after(n + 1),
        n >= 5 ==> backoff_after(n) == LAST_BACKOFF_SECONDS,
    decreases n,
{
    if n > 0 {
        backoff_grows_to_its_limit((n - 1) as nat);
    }
    reveal_with_fuel(backoff_after, 7);
}

/// A watch that was stopped publishes nothing more: not when it starts, unless the endpoint is off
/// and only shown, not when it could not connect, and whatever is reported while it reads or waits.
pub proof fn stopped_watch_publishes_nothing(w: Watch, event: WatchEvent)
    requires
        ({
            ||| w.phase is Reading
            ||| w.phase is Waiting
            ||| w.phase is Connecting && !(event is Connected)
            ||| w.phase is Idle && w.endpoint.enabled
        }),
    ensures
        w.stepped(event, true).1 is End,
{
}

/// Nobody wanting the state ends the watch.
pub proof fn unwanted_watch_ends(w: Watch, then: AfterPublish, stopped: bool)
    requires
        w.phase == WatchPhase::Publishing(then),
    ensures
        w.stepped(WatchEvent::Published(false), stopped).1 is End,
{
}

/// What the watch loses and finds again it resumes from: the next request names the cursor and the
/// runtime that the last event left.
pub proof fn reconnect_resumes_after_the_last_event(
    w: Watch,
    event: SequencedEventEnvelope,
)
    requires
        w.phase is Reading,
        w.snapshot is Some,
    ensures
        ({
            let (seen, _) = w.stepped(WatchEvent::Received(event), false);
            let (reading, _) = seen.stepped(WatchEvent::Published(true), false);
            let (lost, _) = reading.stepped(WatchEvent::Closed, false);
            let (waiting, wait) = lost.stepped(WatchEvent::Published(true), false);
            let (announced, _) = waiting.stepped(WatchEvent::Waited, false);
            let (_, request) = announced.stepped(WatchEvent::Published(true), false);
            &&& wait == Action::Wait(FIRST_BACKOFF_SECONDS)
            &&& request == Action::Connect(
                SessionWatchParams {
                    after_cursor: Some(event.cursor),
                    member_id: Some(w.snapshot->0.identity.member_id),
                    server_id: Some(w.snapshot->0.identity.server_id),
                    session_id: Some(w.snapshot->0.identity.session_id),
                },
            )
        }),
{
}

/// An endpoint that is off is published once, as it is, and never connected to.
pub proof fn disabled_endpoint_is_only_shown(w: Watch, stopped: bool, wanted: bool)
    requires
        w.phase is Idle,
        !w.endpoint.enabled,
    ensures
        ({
            let (after, action) = w.stepped(WatchEvent::Started, stopped);
            &&& action == Action::Publish(unconnected(w.endpoint))
            &&& after.stepped(WatchEvent::Published(wanted), stopped).1 is End
        }),
{
}

/// An enabled endpoint is announced as connecting, with what is known of it, and then connected to:
/// from the last cursor of the runtime that was known, or from nothing.
pub proof fn enabled_endpoints_are_connected_to(w: Watch)
    requires
        w.phase is Idle,
        w.endpoint.enabled,
    ensures
        ({
            let (announced, publish) = w.stepped(WatchEvent::Started, false);
            let (connecting, connect) = announced.stepped(WatchEvent::Published(true), false);
            &&& publish == Action::Publish(
                Endpoint {
                    endpoint: w.endpoint,
                    status: EndpointConnectionStatus::Connecting,
                    snapshot: w.snapshot,
                    cursor: w.cursor,
                    error: None,
                },
            )
            &&& connecting.phase is Connecting
            &&& connect matches Action::Connect(params) && params.after_cursor == w.cursor
            &&& w.snapshot is None ==> (connect matches Action::Connect(params)
                && params.member_id is None && params.server_id is None && params.session_id is None)
            &&& w.snapshot matches Some(s) ==> (connect matches Action::Connect(params)
                && params.member_id == Some(s.identity.member_id) && params.server_id == Some(
                s.identity.server_id,
            ) && params.session_id == Some(s.identity.session_id))
        }),
{
}

/// An endpoint that accepts is published as connected, with the snapshot and cursor it gives, or with
/// the snapshot that was known where it resumes; then its events are read, and the next wait is a
/// second again. A snapshot of another member is not taken: the endpoint counts as lost.
pub proof fn accepted_watches_are_followed(w: Watch, cursor: u64, snapshot: Option<SessionSnapshot>)
    requires
        w.phase is Connecting,
    ensures
        ({
            let (after, publish) = w.stepped(WatchEvent::Connected { cursor, snapshot }, false);
            let (reading, read) = after.stepped(WatchEvent::Published(true), false);
            let other = snapshot is Some && snapshot->0@.identity.member_id@ != w.endpoint.id@;
            &&& !other ==> {
                &&& after.cursor == Some(cursor)
                &&& snapshot is Some ==> after.snapshot == Some(snapshot->0@)
                &&& snapshot is None ==> after.snapshot == w.snapshot
                &&& publish == Action::Publish(
                    Endpoint {
                        endpoint: w.endpoint,
                        status: EndpointConnectionStatus::Connected,
                        snapshot: after.snapshot,
                        cursor: Some(cursor),
                        error: None,
                    },
                )
                &&& read is Read && reading.phase is Reading && reading.backoff == 1
                &&& reading.snapshot == after.snapshot && reading.cursor == Some(cursor)
            }
            &&& other ==> {
                &&& after.cursor == w.cursor && after.snapshot == w.snapshot
                &&& publish matches Action::Publish(state) && !(state.status is Connected)
                    && state.error is Some && state.snapshot == w.snapshot
                &&& read == Action::Wait(w.backoff)
            }
        }),
{
}

/// An event that is read moves the cursor on and is applied to the snapshot, and the new state is
/// published as connected; then reading goes on.
pub proof fn events_are_applied_and_published(w: Watch, event: SequencedEventEnvelope)
    requires
        w.phase is Reading,
    ensures
        ({
            let (after, publish) = w.stepped(WatchEvent::Received(event), false);
            &&& after.cursor == Some(event.cursor)
            &&& w.snapshot is None ==> after.snapshot is None
            &&& w.snapshot matches Some(s) ==> after.snapshot == Some(
                (Snapshot { event_cursor: event.cursor, ..s }).changed(event.event).reconciled(),
            )
            &&& publish == Action::Publish(
                Endpoint {
                    endpoint: w.endpoint,
                    status: EndpointConnectionStatus::Connected,
                    snapshot: after.snapshot,
                    cursor: Some(event.cursor),
                    error: None,
                },
            )
            &&& after.stepped(WatchEvent::Published(true), false).1 is Read
        }),
{
}

/// An endpoint that is lost, or cannot be connected to, is published with the reason; what is known of
/// it stays. Then comes a wait, and after it another attempt; each wait in a row is twice as long, up
/// to half a minute.
pub proof fn lost_endpoints_are_waited_for(w: Watch, event: WatchEvent)
    requires
        w.phase is Connecting && event is ConnectFailed || w.phase is Reading && (event is Closed
            || event is ReadFailed),
        1 <= w.backoff <= 30,
    ensures
        ({
            let (lost, publish) = w.stepped(event, false);
            let (waiting, wait) = lost.stepped(WatchEvent::Published(true), false);
            let (again, announce) = waiting.stepped(WatchEvent::Waited, false);
            &&& publish matches Action::Publish(state) && state.endpoint == w.endpoint
                && state.snapshot == w.snapshot && state.cursor == w.cursor && state.error is Some
                && (state.status is Disconnected || state.status is Incompatible)
            &&& event matches WatchEvent::ConnectFailed(message) ==> (
            publish matches Action::Publish(state) && state.error == Some(message@))
            &&& event matches WatchEvent::ReadFailed(message) ==> (
            publish matches Action::Publish(state) && state.error == Some(message@))
            &&& event is Closed ==> (publish matches Action::Publish(state)
                && state.status is Disconnected)
            &&& wait == Action::Wait(w.backoff)
            &&& announce matches Action::Publish(state) && state.status is Connecting
                && state.snapshot == w.snapshot && state.cursor == w.cursor
            &&& again.backoff == (if w.backoff <= 15 {
                2 * w.backoff
            } else {
                30
            })
            &&& again.snapshot == w.snapshot && again.cursor == w.cursor
        }),
{
}

/// Some words stand in a message.
pub open spec fn stand_in(message: Seq<char>, words: Seq<char>) -> bool {
    exists|at: int|
        0 <= at && at + words.len() <= message.len() && #[trigger] message.subrange(
            at,
            (at + words.len()) as int,
        ) == words
}

/// A message that names the watch, or says that federation is not supported, tells of an endpoint that
/// cannot be watched; any other of one that may come back.
pub proof fn errors_tell_incompatible_endpoints(message: Seq<char>)
    ensures
        stand_in(message, "session.watch"@) || stand_in(message, "does not support federation"@)
            ==> error_status(message) is Incompatible,
        !stand_in(message, "session.watch"@) && !stand_in(message, "does not support federation"@)
            ==> error_status(message) is Disconnected,
{
    lemma_stand_in(message, "session.watch"@);
    lemma_stand_in(message, "does not support federation"@);
}

proof fn lemma_stand_in(message: Seq<char>, words: Seq<char>)
    ensures
        stand_in(message, words) == (pattern_from(message, 0, words) is Some),
{
    if stand_in(message, words) {
        let at = choose|at: int|
            0 <= at && at + words.len() <= message.len() && #[trigger] message.subrange(
                at,
                (at + words.len()) as int,
            ) == words;
        lemma_mentions(message, words, 0, at);
    }
    lemma_found(message, words, 0);
}

proof fn lemma_found(message: Seq<char>, words: Seq<char>, from: int)
    requires
        0 <= from,
    ensures
        pattern_from(message, from, words) is Some ==> stand_in(message, words),
    decreases message.len() + 1 - from,
{
    if from + words.len() <= message.len() && message.subrange(from, from + words.len()) != words {
        lemma_found(message, words, from + 1);
    }
}

proof fn lemma_mentions(message: Seq<char>, words: Seq<char>, from: int, at: int)
    requires
        0 <= from <= at,
    ensures
        at + words.len() <= message.len() && message.subrange(at, (at + words.len()) as int) == words
            ==> pattern_from(message, from, words) is Some,
    decreases at - from,
{
    if from < at {
        lemma_mentions(message, words, from + 1, at);
    }
}

} // verus!
