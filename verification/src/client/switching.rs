//! The client's loop: which connection is active, which ones wait, and what every event leads to.
//!
//! A client stays on one terminal while it moves between federation members. The connection it
//! leaves is suspended, not closed, and is fallen back to when the active one breaks off. A
//! connection becomes active only after the member at its other end has acknowledged the activation
//! under the identity that was expected of it. The directory of members comes from the home server
//! alone.
//!
//! The loop takes one event at a time and answers with actions. An action that asks something of
//! the outside is the last of its answer; its outcome is the next event.

use crate::client::error::ClientError;
use crate::federation::directory::{endpoints, first_with_id, merged};
use crate::federation::endpoint::{Endpoint, EndpointState, FederatedResourceRef};
use crate::schema::same_option;
use crate::search::first_hit;
use std::collections::HashSet;
use vstd::prelude::*;

verus! {

/// How long a member may take to acknowledge an activation, in milliseconds.
pub const FEDERATION_ACTIVATION_TIMEOUT_MS: u64 = 10000;

/// How long the client waits before it dials the suspended home server again, in milliseconds.
pub const DIRECTORY_AUTHORITY_RECONNECT_MS: u64 = 1000;

/// How a notification is shown.
#[derive(Debug, Clone, Copy, PartialEq, Eq, Structural)]
pub enum NotifyKind {
    Sound,
    Toast,
    SystemToast,
}

/// A message about the session that a connection shows.
#[derive(Debug, PartialEq, Eq)]
pub enum SessionMessage {
    MouseCapture { enabled: bool },
    WindowTitle { title: Option<String> },
    PrefixInputSource { active: bool },
    ReloadSoundConfig,
    Clipboard { data: String },
    Notify { kind: NotifyKind, message: String, body: Option<String> },
}

/// A message of a server. What a frame shows is not part of it.
#[derive(Debug, PartialEq, Eq)]
pub enum ServerMessage {
    Frame,
    Terminal,
    Graphics,
    Shutdown { reason: Option<String> },
    Session(SessionMessage),
    Attach {
        endpoint_id: String,
        resource: Option<FederatedResourceRef>,
        directory: Vec<EndpointState>,
    },
    ActivationResult {
        request_id: u64,
        accepted: bool,
        member_id: String,
        server_id: String,
        session_id: String,
        error: Option<String>,
    },
    Identity { member_id: String, server_id: String, session_id: String },
    DirectoryUpdate { directory: Vec<EndpointState> },
    Welcome,
}

/// A connection, and the state of the terminal that belongs to it.
#[derive(Debug, PartialEq, Eq)]
pub struct Connection {
    pub member_id: String,
    pub server_id: Option<String>,
    pub session_id: Option<String>,
    pub connection_id: u64,
    /// The connection goes through a bridge of its own.
    pub remote: bool,
    pub mouse_capture_active: bool,
    pub window_title: Option<String>,
    pub prefix_input_source_active: bool,
    pub is_remote_client: bool,
}

impl Clone for Connection {
    fn clone(&self) -> (r: Self)
        ensures
            r == *self,
    {
        Connection {
            member_id: self.member_id.clone(),
            server_id: same_option(&self.server_id),
            session_id: same_option(&self.session_id),
            connection_id: self.connection_id,
            remote: self.remote,
            mouse_capture_active: self.mouse_capture_active,
            window_title: same_option(&self.window_title),
            prefix_input_source_active: self.prefix_input_source_active,
            is_remote_client: self.is_remote_client,
        }
    }
}

/// A member that was asked to become active.
#[derive(Debug, PartialEq, Eq)]
pub struct PendingActivation {
    pub connection: Connection,
    pub endpoint_id: String,
    pub expected_resource: Option<FederatedResourceRef>,
    pub expected_runtime_identity: Option<(String, String)>,
    pub request_id: u64,
    /// The connection that is active now is suspended, not closed, when the member accepts.
    pub retain_current: bool,
    /// The connection goes back to the suspended ones when the member rejects.
    pub restore_if_rejected: bool,
    /// When the activation counts as failed, in milliseconds.
    pub deadline: u64,
}

/// The progress that is shown while a member is dialled for the first time.
#[derive(Debug, PartialEq, Eq)]
pub struct FederationConnectingUi {
    pub member_label: String,
    pub tick: u64,
}

/// How a member is reached.
#[derive(Debug, Clone, Copy, PartialEq, Eq, Structural)]
pub enum FederationConnectionPlan {
    Current,
    Suspended(usize),
    New,
}

pub open spec fn connecting_for(plan: FederationConnectionPlan, label: String) -> Option<
    FederationConnectingUi,
> {
    if plan == FederationConnectionPlan::New {
        Some(FederationConnectingUi { member_label: label, tick: 0 })
    } else {
        None
    }
}

impl FederationConnectingUi {
    /// The progress of a plan: only a member that is dialled for the first time shows any.
    pub fn for_plan(plan: FederationConnectionPlan, member_label: &String) -> (r: Option<Self>)
        ensures
            r == connecting_for(plan, *member_label),
    {
        if plan == FederationConnectionPlan::New {
            Some(FederationConnectingUi { member_label: member_label.clone(), tick: 0 })
        } else {
            None
        }
    }

    /// What is shown.
    pub open spec fn text(&self) -> Seq<char> {
        "Connecting to "@ + self.member_label@ + seq!['…']
    }

    /// What is shown.
    pub fn message(&self) -> (r: String)
        ensures
            r@ == self.text(),
    {
        let mut text = "Connecting to ".to_owned();
        text.append(self.member_label.as_str());
        text.push('…');
        assert(text@ =~= "Connecting to "@ + self.member_label@ + seq!['…']);
        text
    }

    /// Ends the progress; says whether there was any.
    pub fn finish(active: &mut Option<Self>) -> (r: bool)
        ensures
            r == (*old(active) is Some),
            *final(active) is None,
    {
        let was = active.is_some();
        *active = None;
        was
    }
}

/// A member that is being switched to.
#[derive(Debug, PartialEq, Eq)]
pub struct Switch {
    pub endpoint_id: String,
    pub resource: Option<FederatedResourceRef>,
    /// The server and session that the directory knows for the member.
    pub identity: (String, String),
    /// The connection was suspended, not dialled.
    pub reused: bool,
}

/// Why the client looks for a suspended connection.
#[derive(Debug, PartialEq, Eq)]
pub enum Fallback {
    WriteFailed { error: String },
    PendingLost,
    Shutdown { reason: Option<String> },
    Closed,
}

/// What the client waits for before it takes another event.
#[derive(Debug, PartialEq, Eq)]
pub enum Waiting {
    Nothing,
    /// A suspended connection is dialled again, to fall back to it.
    FallbackReconnect { candidate: Connection, why: Fallback },
    /// A suspended connection was asked to become active.
    FallbackActivate { candidate: Connection, request_id: u64, why: Fallback },
    /// The active connection was asked to suspend.
    Suspend { pending: PendingActivation, server_id: String, session_id: String },
    /// The successor of the active server is dialled.
    Handoff { reason: Option<String> },
    /// The successor was asked to become active.
    HandoffActivate { connection_id: u64, request_id: u64 },
    /// The active member was asked to show something else.
    CurrentActivate,
    /// A suspended connection is dialled again, to switch to it.
    SwitchReconnect { switch: Switch, candidate: Connection },
    /// A member is dialled for the first time.
    SwitchStart { switch: Switch },
    /// A member was asked to become active.
    SwitchActivate { switch: Switch, candidate: Connection, request_id: u64 },
    /// The suspended home server is dialled again.
    HomeReconnect { index: usize },
}

/// Why a member refused.
#[derive(Debug, PartialEq, Eq)]
pub enum Rejection {
    Given(String),
    Identity { member_id: String, server_id: String, session_id: String },
    Member { member_id: String },
}

/// A notification of the client's own.
#[allow(inconsistent_fields)]
#[derive(Debug, PartialEq, Eq)]
pub enum Toast {
    ActivationRejected { endpoint_id: Option<String>, detail: Rejection },
    PendingDisconnected,
    PendingTimedOut,
    MemberDisconnected,
    RemoteDisconnected,
    RemoteChanged,
    Untrusted,
    Unavailable,
    Stale,
    InProgress,
    CouldNotOpen { endpoint_id: String, error: String },
}

/// What the client does. Of those that ask something, the outcome is the next event.
#[allow(inconsistent_fields)]
#[derive(Debug, PartialEq, Eq)]
pub enum LoopAction {
    /// Tell the active server the new size.
    SendResize { cols: u16, rows: u16, cell_width_px: u32, cell_height_px: u32 },
    /// Tell the active server the size as it is.
    ReportSize,
    /// Tell the active server the directory.
    SendDirectory,
    /// Tell a server that it is no longer shown, whether or not it hears it.
    SendSuspend { connection_id: u64 },
    /// Tell the active server that it is no longer shown. Asks whether it could be told.
    AskSuspend { connection_id: u64 },
    SendDetach,
    /// Dial a server again and shake hands, under a new number. Asks whether that worked.
    Reconnect { from: u64, to: u64 },
    /// Start a bridge to a member, dial it and shake hands. Asks whether that worked.
    StartRemote { target: String, session: String, to: u64 },
    /// Dial the successor of the active server. Asks whether that worked.
    Handoff { remote: bool, to: u64 },
    /// Ask a member to become active, and give it the directory. Asks whether it could be told.
    Activate {
        connection_id: u64,
        request_id: u64,
        member_id: String,
        resource: Option<FederatedResourceRef>,
        presentation: bool,
    },
    /// Send to this connection from now on.
    Promote { connection_id: u64 },
    /// Close a connection.
    Drop { connection_id: u64 },
    SetMouseCapture { enabled: bool },
    WriteTitle { title: Option<String> },
    SetPrefixInput { active: bool },
    ShowFrame,
    ShowTerminal { track_graphics: bool },
    ShowGraphics,
    ForwardClipboard { data: String },
    ReloadConfig,
    Notify { kind: NotifyKind, message: String, body: Option<String> },
    ShowToast(Toast),
    FullRedraw,
    /// Draw the last frame with the progress over it.
    DrawConnecting,
    /// Draw the last frame without the progress.
    RestoreFrame,
    /// Take a message that came early, as if it came now.
    Requeue { connection_id: u64, message: SessionMessage },
}

/// How the loop ends.
#[derive(Debug, PartialEq, Eq)]
pub enum LoopEnd {
    Exit,
    NoneHealthy,
    Closed,
    Lost(String),
    Shutdown { reason: Option<String> },
    Failed(ClientError),
}

/// What happened.
#[allow(inconsistent_fields)]
#[derive(Debug, PartialEq, Eq)]
pub enum LoopEvent {
    Quit,
    Resize { cols: u16, rows: u16, cell_width_px: u32, cell_height_px: u32 },
    /// Something could not be sent to the active server.
    WriteFailed { error: String },
    Message { connection_id: u64, message: ServerMessage },
    Disconnected { connection_id: u64 },
    Timer,
    /// What was asked worked.
    Done,
    /// What was asked failed.
    Failed { error: ClientError, text: String },
}

/// The client's loop.
#[derive(Debug, PartialEq, Eq)]
pub struct ClientLoop {
    pub active: Connection,
    /// The connections that can be switched back to, the latest last.
    pub suspended: Vec<Connection>,
    /// Connections that broke off while they were not active.
    pub disconnected: HashSet<u64>,
    pub next_connection_id: u64,
    pub next_request_id: u64,
    pub pending: Option<PendingActivation>,
    /// What the pending member said before it acknowledged.
    pub buffered: Vec<SessionMessage>,
    /// The member that the directory comes from, and its connection.
    pub home_member_id: String,
    pub home_connection_id: u64,
    /// A connection to the home server whose identity is not confirmed yet.
    pub home_candidate_id: Option<u64>,
    pub home_retry_at: Option<u64>,
    pub directory: Vec<EndpointState>,
    pub connecting: Option<FederationConnectingUi>,
    pub waiting: Waiting,
    pub reported_size: (u16, u16),
    pub kitty_graphics_enabled: bool,
    /// The reason with which a server hands over to its successor.
    pub handoff_reason: String,
}

/// The client's loop, with its lists as sequences.
#[verifier::ext_equal]
pub struct Loop {
    pub active: Connection,
    pub suspended: Seq<Connection>,
    pub disconnected: Set<u64>,
    pub next_connection_id: u64,
    pub next_request_id: u64,
    pub pending: Option<PendingActivation>,
    pub buffered: Seq<SessionMessage>,
    pub home_member_id: String,
    pub home_connection_id: u64,
    pub home_candidate_id: Option<u64>,
    pub home_retry_at: Option<u64>,
    pub directory: Seq<Endpoint>,
    pub connecting: Option<FederationConnectingUi>,
    pub waiting: Waiting,
    pub reported_size: (u16, u16),
    pub kitty_graphics_enabled: bool,
    pub handoff_reason: String,
}

impl View for ClientLoop {
    type V = Loop;

    open spec fn view(&self) -> Loop {
        Loop {
            active: self.active,
            suspended: self.suspended@,
            disconnected: self.disconnected@,
            next_connection_id: self.next_connection_id,
            next_request_id: self.next_request_id,
            pending: self.pending,
            buffered: self.buffered@,
            home_member_id: self.home_member_id,
            home_connection_id: self.home_connection_id,
            home_candidate_id: self.home_candidate_id,
            home_retry_at: self.home_retry_at,
            directory: endpoints(self.directory@),
            connecting: self.connecting,
            waiting: self.waiting,
            reported_size: self.reported_size,
            kitty_graphics_enabled: self.kitty_graphics_enabled,
            handoff_reason: self.handoff_reason,
        }
    }
}

/// What an event leads to.
#[verifier::ext_equal]
pub struct Outcome {
    pub state: Loop,
    pub actions: Seq<LoopAction>,
    pub end: Option<LoopEnd>,
}

pub open spec fn quiet(state: Loop) -> Outcome {
    Outcome { state, actions: Seq::empty(), end: None }
}

pub open spec fn doing(state: Loop, actions: Seq<LoopAction>) -> Outcome {
    Outcome { state, actions, end: None }
}

pub open spec fn ending(state: Loop, end: LoopEnd) -> Outcome {
    Outcome { state, actions: Seq::empty(), end: Some(end) }
}

/// The outcome with actions before its own.
pub open spec fn after(actions: Seq<LoopAction>, outcome: Outcome) -> Outcome {
    Outcome { actions: actions + outcome.actions, ..outcome }
}

/// The number behind a number; the numbers go round.
pub open spec fn next_number(n: u64) -> u64 {
    if n == u64::MAX {
        0
    } else {
        (n + 1) as u64
    }
}

pub open spec fn both(a: Option<String>, b: Option<String>) -> Option<(String, String)> {
    match (a, b) {
        (Some(x), Some(y)) => Some((x, y)),
        _ => None,
    }
}

pub open spec fn member_is(id: Seq<char>) -> spec_fn(Connection) -> bool {
    |connection: Connection| connection.member_id@ == id
}

/// How a member is reached: it is shown already, its connection is suspended, or it is dialled.
pub open spec fn plan_for(active: Seq<char>, suspended: Seq<Connection>, destination: Seq<char>) ->
    FederationConnectionPlan {
    let at = first_hit(suspended, member_is(destination), 0);
    if active == destination {
        FederationConnectionPlan::Current
    } else if at < suspended.len() {
        FederationConnectionPlan::Suspended(at as usize)
    } else {
        FederationConnectionPlan::New
    }
}

/// Whether a member that acknowledges is the one that was asked.
pub open spec fn identity_matches(
    expected_member_id: Seq<char>,
    expected_resource: Option<FederatedResourceRef>,
    expected_runtime_identity: Option<(String, String)>,
    member_id: Seq<char>,
    server_id: Seq<char>,
    session_id: Seq<char>,
) -> bool {
    &&& member_id == expected_member_id
    &&& expected_resource matches Some(resource) ==> resource.server_id@ == server_id
        && resource.session_id@ == session_id
    &&& expected_runtime_identity matches Some(runtime) ==> runtime.0@ == server_id && runtime.1@
        == session_id
}

/// Whether a server that is dialled again is the home server whose connection was suspended.
pub open spec fn home_identity_matches(
    connection_member_id: Seq<char>,
    connection_server_id: Option<String>,
    connection_session_id: Option<String>,
    home_member_id: Seq<char>,
    member_id: Seq<char>,
    server_id: Seq<char>,
    session_id: Seq<char>,
) -> bool {
    &&& connection_member_id == home_member_id
    &&& connection_member_id == member_id
    &&& connection_server_id matches Some(known) && known@ == server_id
    &&& connection_session_id matches Some(known) && known@ == session_id
}

impl Loop {
    /// No suspended connection is left.
    pub open spec fn exhausted(self, why: Fallback) -> Outcome {
        let state = Loop { waiting: Waiting::Nothing, ..self };
        match why {
            Fallback::WriteFailed { error } => ending(state, LoopEnd::Lost(error)),
            Fallback::PendingLost => ending(state, LoopEnd::NoneHealthy),
            Fallback::Shutdown { reason } => ending(state, LoopEnd::Shutdown { reason }),
            Fallback::Closed => ending(state, LoopEnd::Closed),
        }
    }

    /// A suspended connection is asked to become active.
    pub open spec fn ask_fallback(self, candidate: Connection, why: Fallback) -> Outcome {
        doing(
            Loop {
                next_request_id: next_number(self.next_request_id),
                waiting: Waiting::FallbackActivate {
                    candidate,
                    request_id: self.next_request_id,
                    why,
                },
                ..self
            },
            seq![
                LoopAction::Activate {
                    connection_id: candidate.connection_id,
                    request_id: self.next_request_id,
                    member_id: candidate.member_id,
                    resource: None,
                    presentation: false,
                },
            ],
        )
    }

    /// The client turns to the connection that was suspended last. One that broke off meanwhile is
    /// dialled again.
    pub open spec fn fall_back(self, why: Fallback) -> Outcome {
        if self.suspended.len() == 0 {
            self.exhausted(why)
        } else {
            let candidate = self.suspended.last();
            let rest = Loop { suspended: self.suspended.drop_last(), ..self };
            if self.disconnected.contains(candidate.connection_id) {
                doing(
                    Loop {
                        disconnected: self.disconnected.remove(candidate.connection_id),
                        waiting: Waiting::FallbackReconnect { candidate, why },
                        ..rest
                    },
                    seq![
                        LoopAction::Reconnect {
                            from: candidate.connection_id,
                            to: self.next_connection_id,
                        },
                    ],
                )
            } else {
                rest.ask_fallback(candidate, why)
            }
        }
    }

    /// The suspended connection was asked; its acknowledgement is awaited.
    pub open spec fn fallback_asked(
        self,
        candidate: Connection,
        request_id: u64,
        why: Fallback,
        now: u64,
    ) -> Outcome {
        doing(
            Loop {
                pending: Some(
                    PendingActivation {
                        connection: candidate,
                        endpoint_id: candidate.member_id,
                        expected_resource: None,
                        expected_runtime_identity: both(candidate.server_id, candidate.session_id),
                        request_id,
                        retain_current: false,
                        restore_if_rejected: false,
                        deadline: (now + FEDERATION_ACTIVATION_TIMEOUT_MS) as u64,
                    },
                ),
                buffered: Seq::empty(),
                waiting: Waiting::Nothing,
                ..self
            },
            match why {
                Fallback::Shutdown { .. } => seq![
                    LoopAction::ShowToast(Toast::MemberDisconnected),
                    LoopAction::FullRedraw,
                ],
                Fallback::Closed => seq![LoopAction::ShowToast(Toast::RemoteDisconnected)],
                _ => Seq::empty(),
            },
        )
    }

    /// The active connection is gone: the pending one is awaited, or a suspended one is turned to.
    pub open spec fn lose_active(self, why: Fallback) -> Outcome {
        match self.pending {
            Some(pending) => quiet(
                Loop {
                    pending: Some(PendingActivation { retain_current: false, ..pending }),
                    waiting: Waiting::Nothing,
                    ..self
                },
            ),
            None => self.fall_back(why),
        }
    }

    /// The frame without the progress, where it is to be drawn again.
    pub open spec fn uncover(self, restore: bool) -> Seq<LoopAction> {
        if self.connecting is Some && restore {
            seq![LoopAction::RestoreFrame]
        } else {
            Seq::empty()
        }
    }

    /// A pending activation came to nothing. Where the active connection is gone too, a suspended
    /// one is turned to.
    pub open spec fn abandon(
        self,
        pending: PendingActivation,
        suspend: bool,
        keep: bool,
        toast: Toast,
    ) -> Outcome {
        let id = pending.connection.connection_id;
        let actions = self.uncover(pending.retain_current) + (if suspend {
            seq![LoopAction::SendSuspend { connection_id: id }]
        } else {
            Seq::empty()
        }) + seq![LoopAction::ShowToast(toast)] + (if keep {
            Seq::empty()
        } else {
            seq![LoopAction::Drop { connection_id: id }]
        });
        let state = Loop {
            pending: None,
            buffered: Seq::empty(),
            connecting: None,
            suspended: if keep {
                self.suspended.push(pending.connection)
            } else {
                self.suspended
            },
            waiting: Waiting::Nothing,
            ..self
        };
        if pending.retain_current {
            doing(state, actions)
        } else {
            after(actions, state.fall_back(Fallback::PendingLost))
        }
    }

    /// The pending member takes the terminal over.
    pub open spec fn commit(
        self,
        pending: PendingActivation,
        server_id: String,
        session_id: String,
        retained: bool,
    ) -> Outcome {
        let taken = pending.connection;
        doing(
            Loop {
                active: Connection {
                    server_id: Some(server_id),
                    session_id: Some(session_id),
                    ..taken
                },
                suspended: if retained {
                    self.suspended.push(self.active)
                } else {
                    self.suspended
                },
                home_connection_id: if taken.member_id@ == self.home_member_id@ {
                    taken.connection_id
                } else {
                    self.home_connection_id
                },
                pending: None,
                buffered: Seq::empty(),
                connecting: None,
                waiting: Waiting::Nothing,
                ..self
            },
            (if retained {
                Seq::empty()
            } else {
                seq![LoopAction::Drop { connection_id: self.active.connection_id }]
            }) + seq![LoopAction::Promote { connection_id: taken.connection_id }] + (if
            self.active.mouse_capture_active != taken.mouse_capture_active {
                seq![LoopAction::SetMouseCapture { enabled: taken.mouse_capture_active }]
            } else {
                Seq::empty()
            }) + seq![
                LoopAction::WriteTitle { title: taken.window_title },
                LoopAction::SetPrefixInput { active: taken.prefix_input_source_active },
                LoopAction::FullRedraw,
                LoopAction::ReportSize,
            ] + Seq::new(
                self.buffered.len(),
                |i: int|
                    LoopAction::Requeue {
                        connection_id: taken.connection_id,
                        message: self.buffered[i],
                    },
            ),
        )
    }

    /// A member acknowledged, or refused, what it was asked.
    pub open spec fn acknowledged(
        self,
        pending: PendingActivation,
        accepted: bool,
        member_id: String,
        server_id: String,
        session_id: String,
        error: Option<String>,
    ) -> Outcome {
        if accepted && identity_matches(
            pending.endpoint_id@,
            pending.expected_resource,
            pending.expected_runtime_identity,
            member_id@,
            server_id@,
            session_id@,
        ) {
            if pending.retain_current {
                doing(
                    Loop {
                        pending: None,
                        waiting: Waiting::Suspend { pending, server_id, session_id },
                        ..self
                    },
                    seq![LoopAction::AskSuspend { connection_id: self.active.connection_id }],
                )
            } else {
                self.commit(pending, server_id, session_id, false)
            }
        } else {
            self.abandon(
                pending,
                true,
                pending.restore_if_rejected && member_id@ == pending.endpoint_id@,
                Toast::ActivationRejected {
                    endpoint_id: Some(pending.endpoint_id),
                    detail: match error {
                        Some(text) => Rejection::Given(text),
                        None => Rejection::Identity { member_id, server_id, session_id },
                    },
                },
            )
        }
    }

    /// A server said which member it is.
    pub open spec fn identified(
        self,
        connection_id: u64,
        member_id: String,
        server_id: String,
        session_id: String,
        now: u64,
    ) -> Outcome {
        if self.home_candidate_id == Some(connection_id) {
            let known = exists|i: int|
                0 <= i < self.suspended.len() && (#[trigger] self.suspended[i]).connection_id
                    == connection_id && home_identity_matches(
                    self.suspended[i].member_id@,
                    self.suspended[i].server_id,
                    self.suspended[i].session_id,
                    self.home_member_id@,
                    member_id@,
                    server_id@,
                    session_id@,
                );
            if known {
                quiet(
                    Loop {
                        home_candidate_id: None,
                        home_connection_id: connection_id,
                        disconnected: self.disconnected.remove(connection_id),
                        home_retry_at: None,
                        ..self
                    },
                )
            } else {
                quiet(
                    Loop {
                        home_candidate_id: None,
                        disconnected: self.disconnected.insert(connection_id),
                        home_retry_at: Some((now + DIRECTORY_AUTHORITY_RECONNECT_MS) as u64),
                        ..self
                    },
                )
            }
        } else if connection_id == self.home_connection_id {
            quiet(
                Loop {
                    home_member_id: member_id,
                    active: if connection_id == self.active.connection_id {
                        Connection {
                            member_id,
                            server_id: Some(server_id),
                            session_id: Some(session_id),
                            ..self.active
                        }
                    } else {
                        self.active
                    },
                    ..self
                },
            )
        } else {
            quiet(self)
        }
    }

    /// The directory came in. Only the home server's counts.
    pub open spec fn directory_came(self, connection_id: u64, incoming: Seq<Endpoint>) -> Outcome {
        if connection_id == self.home_connection_id {
            doing(
                Loop { directory: merged(self.directory, incoming), ..self },
                (if self.active.connection_id != self.home_connection_id {
                    seq![LoopAction::SendDirectory]
                } else {
                    Seq::empty()
                }) + seq![LoopAction::FullRedraw],
            )
        } else {
            quiet(self)
        }
    }

    /// The active server shut down.
    pub open spec fn shut_down(self, reason: Option<String>) -> Outcome {
        if reason matches Some(why) && why@ == "detached"@ {
            ending(
                Loop { waiting: Waiting::Nothing, ..self },
                LoopEnd::Shutdown { reason },
            )
        } else {
            self.lose_active(Fallback::Shutdown { reason })
        }
    }

    /// A member is asked to become active, to be switched to.
    pub open spec fn ask_switch(self, switch: Switch, candidate: Connection) -> Outcome {
        doing(
            Loop {
                next_request_id: next_number(self.next_request_id),
                waiting: Waiting::SwitchActivate {
                    switch,
                    candidate,
                    request_id: self.next_request_id,
                },
                ..self
            },
            seq![
                LoopAction::Activate {
                    connection_id: candidate.connection_id,
                    request_id: self.next_request_id,
                    member_id: switch.endpoint_id,
                    resource: switch.resource,
                    presentation: true,
                },
            ],
        )
    }

    /// A switch that did not come about. The active connection stays.
    pub open spec fn switch_failed(self, endpoint_id: String, error: String, lost: Option<u64>) ->
        Outcome {
        doing(
            Loop { connecting: None, waiting: Waiting::Nothing, ..self },
            self.uncover(true) + (match lost {
                Some(id) => seq![LoopAction::Drop { connection_id: id }],
                None => Seq::empty(),
            }) + seq![LoopAction::ShowToast(Toast::CouldNotOpen { endpoint_id, error })],
        )
    }

    /// A member of the directory is asked for.
    pub open spec fn switch_to(self, endpoint_id: String, resource: Option<FederatedResourceRef>) ->
        Outcome {
        let at = first_with_id(self.directory, endpoint_id@);
        let member = self.directory[at];
        let runtime = member.snapshot->0.identity;
        let label = match member.endpoint.label {
            Some(label) => label,
            None => endpoint_id,
        };
        let plan = plan_for(self.active.member_id@, self.suspended, endpoint_id@);
        let switch = Switch {
            endpoint_id,
            resource,
            identity: (runtime.server_id, runtime.session_id),
            reused: plan is Suspended,
        };
        if at == self.directory.len() {
            doing(self, seq![LoopAction::ShowToast(Toast::Untrusted)])
        } else if member.snapshot is None {
            doing(self, seq![LoopAction::ShowToast(Toast::Unavailable)])
        } else if resource matches Some(r) && !(r.endpoint_id@ == endpoint_id@ && runtime.server_id@
            == r.server_id@ && runtime.session_id@ == r.session_id@) {
            doing(self, seq![LoopAction::ShowToast(Toast::Stale)])
        } else if self.pending is Some {
            doing(self, seq![LoopAction::ShowToast(Toast::InProgress)])
        } else {
            match plan {
                FederationConnectionPlan::Current => doing(
                    Loop {
                        next_request_id: next_number(self.next_request_id),
                        waiting: Waiting::CurrentActivate,
                        ..self
                    },
                    seq![
                        LoopAction::Activate {
                            connection_id: self.active.connection_id,
                            request_id: self.next_request_id,
                            member_id: endpoint_id,
                            resource,
                            presentation: true,
                        },
                    ],
                ),
                FederationConnectionPlan::Suspended(index) => {
                    let candidate = self.suspended[index as int];
                    let rest = Loop {
                        connecting: None,
                        suspended: self.suspended.remove(index as int),
                        disconnected: self.disconnected.remove(candidate.connection_id),
                        ..self
                    };
                    if self.disconnected.contains(candidate.connection_id) {
                        doing(
                            Loop {
                                waiting: Waiting::SwitchReconnect { switch, candidate },
                                ..rest
                            },
                            seq![
                                LoopAction::DrawConnecting,
                                LoopAction::Reconnect {
                                    from: candidate.connection_id,
                                    to: self.next_connection_id,
                                },
                            ],
                        )
                    } else {
                        after(
                            seq![LoopAction::DrawConnecting],
                            rest.ask_switch(switch, candidate),
                        )
                    }
                },
                FederationConnectionPlan::New => doing(
                    Loop {
                        connecting: Some(FederationConnectingUi { member_label: label, tick: 0 }),
                        waiting: Waiting::SwitchStart { switch },
                        ..self
                    },
                    seq![
                        LoopAction::DrawConnecting,
                        LoopAction::StartRemote {
                            target: member.endpoint.target,
                            session: member.endpoint.session,
                            to: self.next_connection_id,
                        },
                    ],
                ),
            }
        }
    }

    /// A message of the active server about its session.
    pub open spec fn session_came(self, message: SessionMessage) -> Outcome {
        match message {
            SessionMessage::MouseCapture { enabled } => if enabled
                != self.active.mouse_capture_active {
                doing(
                    Loop {
                        active: Connection { mouse_capture_active: enabled, ..self.active },
                        ..self
                    },
                    seq![LoopAction::SetMouseCapture { enabled }],
                )
            } else {
                quiet(self)
            },
            SessionMessage::WindowTitle { title } => doing(
                Loop { active: Connection { window_title: title, ..self.active }, ..self },
                seq![LoopAction::WriteTitle { title }],
            ),
            SessionMessage::PrefixInputSource { active } => doing(
                Loop {
                    active: Connection { prefix_input_source_active: active, ..self.active },
                    ..self
                },
                seq![LoopAction::SetPrefixInput { active }],
            ),
            SessionMessage::ReloadSoundConfig => doing(self, seq![LoopAction::ReloadConfig]),
            SessionMessage::Clipboard { data } => doing(
                self,
                seq![LoopAction::ForwardClipboard { data }],
            ),
            SessionMessage::Notify { kind, message, body } => doing(
                self,
                seq![LoopAction::Notify { kind, message, body }],
            ),
        }
    }

    /// A message of the active server.
    pub open spec fn active_said(self, message: ServerMessage) -> Outcome {
        match message {
            ServerMessage::Frame => doing(self, seq![LoopAction::ShowFrame]),
            ServerMessage::Terminal => doing(
                self,
                seq![LoopAction::ShowTerminal { track_graphics: self.kitty_graphics_enabled }],
            ),
            ServerMessage::Graphics => if self.kitty_graphics_enabled {
                doing(self, seq![LoopAction::ShowGraphics])
            } else {
                quiet(self)
            },
            ServerMessage::Shutdown { reason } => if reason matches Some(why) && why@
                == self.handoff_reason@ {
                doing(
                    Loop { waiting: Waiting::Handoff { reason }, ..self },
                    seq![
                        LoopAction::Handoff {
                            remote: self.active.remote,
                            to: self.next_connection_id,
                        },
                    ],
                )
            } else {
                self.shut_down(reason)
            },
            ServerMessage::Session(said) => self.session_came(said),
            ServerMessage::Attach { endpoint_id, resource, directory } => (if
            self.active.connection_id == self.home_connection_id {
                Loop { directory: merged(self.directory, endpoints(directory@)), ..self }
            } else {
                self
            }).switch_to(endpoint_id, resource),
            ServerMessage::ActivationResult { accepted, member_id, error, .. } => if accepted {
                quiet(self)
            } else {
                doing(
                    self,
                    seq![
                        LoopAction::ShowToast(
                            Toast::ActivationRejected {
                                endpoint_id: None,
                                detail: match error {
                                    Some(text) => Rejection::Given(text),
                                    None => Rejection::Member { member_id },
                                },
                            },
                        ),
                    ],
                )
            },
            _ => quiet(self),
        }
    }

    /// A message that is for the connection it came on: the pending one's are kept for later, the
    /// active one's count, and of the others only that they shut down.
    pub open spec fn routed(self, connection_id: u64, message: ServerMessage) -> Outcome {
        if self.pending matches Some(pending) && pending.connection.connection_id == connection_id {
            match message {
                ServerMessage::Session(said) => quiet(
                    Loop { buffered: self.buffered.push(said), ..self },
                ),
                _ => quiet(self),
            }
        } else if connection_id != self.active.connection_id {
            if message is Shutdown {
                quiet(Loop { disconnected: self.disconnected.insert(connection_id), ..self })
            } else {
                quiet(self)
            }
        } else {
            self.active_said(message)
        }
    }

    /// A server said something.
    pub open spec fn said(self, connection_id: u64, message: ServerMessage, now: u64) -> Outcome {
        match message {
            ServerMessage::DirectoryUpdate { directory } => self.directory_came(
                connection_id,
                endpoints(directory@),
            ),
            ServerMessage::Identity { member_id, server_id, session_id } => self.identified(
                connection_id,
                member_id,
                server_id,
                session_id,
                now,
            ),
            ServerMessage::ActivationResult {
                request_id,
                accepted,
                member_id,
                server_id,
                session_id,
                error,
            } => if self.pending matches Some(pending) && pending.connection.connection_id
                == connection_id && pending.request_id == request_id {
                self.acknowledged(
                    self.pending->0,
                    accepted,
                    member_id,
                    server_id,
                    session_id,
                    error,
                )
            } else {
                self.routed(connection_id, message)
            },
            _ => self.routed(connection_id, message),
        }
    }

    /// A connection broke off.
    pub open spec fn broke_off(self, connection_id: u64, now: u64) -> Outcome {
        if self.pending matches Some(pending) && pending.connection.connection_id == connection_id {
            self.abandon(self.pending->0, false, false, Toast::PendingDisconnected)
        } else if connection_id != self.active.connection_id {
            let is_home = connection_id == self.home_connection_id || self.home_candidate_id
                == Some(connection_id);
            quiet(
                Loop {
                    disconnected: self.disconnected.insert(connection_id),
                    home_candidate_id: if is_home {
                        None
                    } else {
                        self.home_candidate_id
                    },
                    home_retry_at: if is_home {
                        Some(now)
                    } else {
                        self.home_retry_at
                    },
                    ..self
                },
            )
        } else {
            self.lose_active(Fallback::Closed)
        }
    }

    /// The pending activation is given up when its time is over.
    pub open spec fn expire(self, now: u64) -> Outcome {
        match self.pending {
            Some(pending) if now >= pending.deadline => self.abandon(
                pending,
                true,
                pending.restore_if_rejected,
                Toast::PendingTimedOut,
            ),
            _ => quiet(self),
        }
    }

    /// The progress moves on.
    pub open spec fn ticked(self) -> Outcome {
        match self.connecting {
            Some(connecting) if self.pending is Some => doing(
                Loop {
                    connecting: Some(
                        FederationConnectingUi {
                            tick: next_number(connecting.tick),
                            ..connecting
                        },
                    ),
                    ..self
                },
                seq![LoopAction::DrawConnecting],
            ),
            _ => quiet(self),
        }
    }

    /// The suspended home server is to be dialled again.
    pub open spec fn home_due(self, now: u64) -> bool {
        &&& self.active.connection_id != self.home_connection_id
        &&& self.home_candidate_id is None
        &&& self.home_retry_at matches Some(at) && at <= now
    }

    /// Time passed.
    pub open spec fn time_passed(self, now: u64) -> Outcome {
        let ticked = self.ticked();
        let state = ticked.state;
        if state.home_due(now) {
            let at = first_hit(state.suspended, member_is(state.home_member_id@), 0);
            if at < state.suspended.len() {
                after(
                    ticked.actions,
                    doing(
                        Loop { waiting: Waiting::HomeReconnect { index: at as usize }, ..state },
                        seq![
                            LoopAction::Reconnect {
                                from: state.suspended[at].connection_id,
                                to: state.next_connection_id,
                            },
                        ],
                    ),
                )
            } else {
                after(ticked.actions, Loop { home_retry_at: None, ..state }.expire(now))
            }
        } else {
            after(ticked.actions, state.expire(now))
        }
    }

    /// The successor of the active server was asked; its acknowledgement is awaited in place of
    /// whatever else was pending.
    pub open spec fn successor_asked(self, connection_id: u64, request_id: u64, deadline: u64) ->
        Outcome {
        doing(
            Loop {
                pending: Some(
                    PendingActivation {
                        connection: Connection { connection_id, ..self.active },
                        endpoint_id: self.active.member_id,
                        expected_resource: None,
                        expected_runtime_identity: both(
                            self.active.server_id,
                            self.active.session_id,
                        ),
                        request_id,
                        retain_current: false,
                        restore_if_rejected: false,
                        deadline,
                    },
                ),
                active: Connection { remote: false, ..self.active },
                buffered: Seq::empty(),
                waiting: Waiting::Nothing,
                ..self
            },
            match self.pending {
                Some(given_up) => seq![
                    LoopAction::Drop { connection_id: given_up.connection.connection_id },
                ],
                None => Seq::empty(),
            },
        )
    }

    /// The suspended home server was dialled again; who answered is not confirmed yet.
    pub open spec fn home_dialled(self, index: usize) -> Loop {
        let new_id = self.next_connection_id;
        if index < self.suspended.len() {
            Loop {
                next_connection_id: next_number(new_id),
                suspended: self.suspended.update(
                    index as int,
                    Connection { connection_id: new_id, ..self.suspended[index as int] },
                ),
                disconnected: self.disconnected.remove(self.home_connection_id),
                home_candidate_id: Some(new_id),
                home_retry_at: None,
                waiting: Waiting::Nothing,
                ..self
            }
        } else {
            Loop { waiting: Waiting::Nothing, ..self }
        }
    }

    /// What the client waited for worked.
    pub open spec fn worked(self, now: u64) -> Outcome {
        let deadline = (now + FEDERATION_ACTIVATION_TIMEOUT_MS) as u64;
        let new_id = self.next_connection_id;
        let counted = Loop { next_connection_id: next_number(new_id), ..self };
        match self.waiting {
            Waiting::Nothing => quiet(self),
            Waiting::FallbackReconnect { candidate, why } => counted.ask_fallback(
                Connection { connection_id: new_id, ..candidate },
                why,
            ),
            Waiting::FallbackActivate { candidate, request_id, why } => self.fallback_asked(
                candidate,
                request_id,
                why,
                now,
            ),
            Waiting::Suspend { pending, server_id, session_id } => self.commit(
                pending,
                server_id,
                session_id,
                true,
            ),
            Waiting::Handoff { .. } => doing(
                Loop {
                    next_request_id: next_number(self.next_request_id),
                    waiting: Waiting::HandoffActivate {
                        connection_id: new_id,
                        request_id: self.next_request_id,
                    },
                    ..counted
                },
                seq![
                    LoopAction::Activate {
                        connection_id: new_id,
                        request_id: self.next_request_id,
                        member_id: self.active.member_id,
                        resource: None,
                        presentation: false,
                    },
                ],
            ),
            Waiting::HandoffActivate { connection_id, request_id } => self.successor_asked(
                connection_id,
                request_id,
                deadline,
            ),
            Waiting::CurrentActivate => doing(
                Loop { waiting: Waiting::Nothing, ..self },
                seq![LoopAction::FullRedraw],
            ),
            Waiting::SwitchReconnect { switch, candidate } => counted.ask_switch(
                switch,
                Connection { connection_id: new_id, ..candidate },
            ),
            Waiting::SwitchStart { switch } => counted.ask_switch(
                switch,
                Connection {
                    member_id: switch.endpoint_id,
                    server_id: Some(switch.identity.0),
                    session_id: Some(switch.identity.1),
                    connection_id: new_id,
                    remote: true,
                    mouse_capture_active: self.active.mouse_capture_active,
                    window_title: None,
                    prefix_input_source_active: false,
                    is_remote_client: true,
                },
            ),
            Waiting::SwitchActivate { switch, candidate, request_id } => quiet(
                Loop {
                    pending: Some(
                        PendingActivation {
                            connection: candidate,
                            endpoint_id: switch.endpoint_id,
                            expected_resource: switch.resource,
                            expected_runtime_identity: Some(switch.identity),
                            request_id,
                            retain_current: true,
                            restore_if_rejected: switch.reused,
                            deadline,
                        },
                    ),
                    buffered: Seq::empty(),
                    waiting: Waiting::Nothing,
                    ..self
                },
            ),
            Waiting::HomeReconnect { index } => self.home_dialled(index).expire(now),
        }
    }

    /// What the client waited for failed.
    pub open spec fn went_wrong(self, error: ClientError, text: String, now: u64) -> Outcome {
        match self.waiting {
            Waiting::Nothing => quiet(self),
            Waiting::FallbackReconnect { candidate, why } => after(
                seq![LoopAction::Drop { connection_id: candidate.connection_id }],
                self.fall_back(why),
            ),
            Waiting::FallbackActivate { candidate, why, .. } => after(
                seq![LoopAction::Drop { connection_id: candidate.connection_id }],
                self.fall_back(why),
            ),
            Waiting::Suspend { pending, server_id, session_id } => self.commit(
                pending,
                server_id,
                session_id,
                false,
            ),
            Waiting::Handoff { reason } => if self.suspended.len() > 0 {
                after(
                    seq![LoopAction::ShowToast(Toast::RemoteChanged)],
                    self.shut_down(reason),
                )
            } else {
                ending(Loop { waiting: Waiting::Nothing, ..self }, LoopEnd::Failed(error))
            },
            Waiting::HandoffActivate { .. } => ending(
                Loop { waiting: Waiting::Nothing, ..self },
                LoopEnd::Lost(text),
            ),
            Waiting::CurrentActivate => ending(
                Loop { waiting: Waiting::Nothing, ..self },
                LoopEnd::Lost(text),
            ),
            Waiting::SwitchReconnect { switch, candidate } => {
                let failed = self.switch_failed(
                    switch.endpoint_id,
                    text,
                    Some(candidate.connection_id),
                );
                Outcome { actions: failed.actions.push(LoopAction::FullRedraw), ..failed }
            },
            Waiting::SwitchStart { switch } => {
                let failed = self.switch_failed(switch.endpoint_id, text, None);
                Outcome { actions: failed.actions.push(LoopAction::FullRedraw), ..failed }
            },
            Waiting::SwitchActivate { switch, candidate, .. } => self.switch_failed(
                switch.endpoint_id,
                text,
                Some(candidate.connection_id),
            ),
            Waiting::HomeReconnect { .. } => Loop {
                home_retry_at: Some((now + DIRECTORY_AUTHORITY_RECONNECT_MS) as u64),
                waiting: Waiting::Nothing,
                ..self
            }.expire(now),
        }
    }

    /// What an event leads to.
    pub open spec fn stepped(self, event: LoopEvent, now: u64) -> Outcome {
        match event {
            LoopEvent::Quit => Outcome {
                state: self,
                actions: seq![LoopAction::SendDetach],
                end: Some(LoopEnd::Exit),
            },
            LoopEvent::Resize { cols, rows, cell_width_px, cell_height_px } => doing(
                Loop { reported_size: (cols, rows), ..self },
                seq![LoopAction::SendResize { cols, rows, cell_width_px, cell_height_px }],
            ),
            LoopEvent::WriteFailed { error } => self.lose_active(Fallback::WriteFailed { error }),
            LoopEvent::Message { connection_id, message } => self.said(connection_id, message, now),
            LoopEvent::Disconnected { connection_id } => self.broke_off(connection_id, now),
            LoopEvent::Timer => self.time_passed(now),
            LoopEvent::Done => self.worked(now),
            LoopEvent::Failed { error, text } => self.went_wrong(error, text, now),
        }
    }
}

/// The pending member accepts, under the identity that was expected of it.
pub open spec fn acknowledges(l: Loop, event: LoopEvent) -> bool {
    &&& event matches LoopEvent::Message {
        connection_id,
        message: ServerMessage::ActivationResult {
            request_id,
            accepted,
            member_id,
            server_id,
            session_id,
            ..
        },
    }
    &&& accepted
    &&& l.pending matches Some(pending)
    &&& pending.connection.connection_id == connection_id
    &&& pending.request_id == request_id
    &&& identity_matches(
        pending.endpoint_id@,
        pending.expected_resource,
        pending.expected_runtime_identity,
        member_id@,
        server_id@,
        session_id@,
    )
}

/// No connection takes the terminal over before the member at its other end has accepted, under the
/// identity that was expected of it.
pub proof fn members_accept_before_they_take_over(l: Loop, event: LoopEvent, now: u64)
    ensures
        ({
            let next = l.stepped(event, now).state;
            &&& next.active.connection_id != l.active.connection_id ==> acknowledges(l, event) || (
            l.waiting is Suspend && (event is Done || event is Failed))
            &&& next.waiting is Suspend && !(l.waiting is Suspend) ==> acknowledges(l, event)
        }),
{
}

/// The directory changes only by what the home server sends.
pub proof fn only_the_home_server_lists_members(l: Loop, event: LoopEvent, now: u64)
    ensures
        l.stepped(event, now).state.directory != l.directory ==> (event matches LoopEvent::Message {
            connection_id,
            ..
        } && connection_id == l.home_connection_id),
{
}

/// A switch that fails, is refused, breaks off or takes too long leaves the active connection as it
/// was, as long as that connection is there itself.
pub proof fn failed_switches_keep_the_active_connection(
    l: Loop,
    pending: PendingActivation,
    suspend: bool,
    keep: bool,
    toast: Toast,
    endpoint_id: String,
    error: String,
    lost: Option<u64>,
)
    requires
        pending.retain_current,
    ensures
        l.abandon(pending, suspend, keep, toast).state.active == l.active,
        l.abandon(pending, suspend, keep, toast).state.pending is None,
        l.abandon(pending, suspend, keep, toast).end is None,
        l.switch_failed(endpoint_id, error, lost).state.active == l.active,
        l.switch_failed(endpoint_id, error, lost).end is None,
{
}

/// While a connection is suspended or pending, losing the active one does not end the client.
pub proof fn losing_a_server_is_survived(l: Loop, why: Fallback)
    requires
        l.suspended.len() > 0 || l.pending is Some,
    ensures
        l.lose_active(why).end is None,
{
}

/// What a connection says that is neither active, pending nor home's changes nothing but whether it
/// counts as broken off.
pub proof fn stray_connections_are_not_heard(
    l: Loop,
    connection_id: u64,
    message: ServerMessage,
    now: u64,
)
    requires
        connection_id != l.active.connection_id,
        connection_id != l.home_connection_id,
        l.home_candidate_id != Some(connection_id),
        l.pending matches Some(pending) ==> pending.connection.connection_id != connection_id,
    ensures
        ({
            let outcome = l.said(connection_id, message, now);
            &&& outcome.actions == Seq::<LoopAction>::empty()
            &&& outcome.end is None
            &&& outcome.state == (Loop { disconnected: outcome.state.disconnected, ..l })
        }),
{
}

/// A member that is not in the home directory, or is known there under another identity, cannot be
/// switched to.
pub proof fn unlisted_members_are_not_dialled(
    l: Loop,
    endpoint_id: String,
    resource: Option<FederatedResourceRef>,
)
    requires
        ({
            let at = first_with_id(l.directory, endpoint_id@);
            ||| at == l.directory.len()
            ||| l.directory[at].snapshot is None
            ||| resource matches Some(r) && {
                let runtime = l.directory[at].snapshot->0.identity;
                ||| r.endpoint_id@ != endpoint_id@
                ||| r.server_id@ != runtime.server_id@
                ||| r.session_id@ != runtime.session_id@
            }
        }),
    ensures
        l.switch_to(endpoint_id, resource).state == l,
        l.switch_to(endpoint_id, resource).actions.len() == 1,
        l.switch_to(endpoint_id, resource).actions[0] is ShowToast,
{
}

/// Messages that a member sent before it was acknowledged are taken up after it, in their order.
pub proof fn early_messages_are_taken_up(
    l: Loop,
    pending: PendingActivation,
    server_id: String,
    session_id: String,
    retained: bool,
    i: int,
)
    requires
        0 <= i < l.buffered.len(),
    ensures
        ({
            let actions = l.commit(pending, server_id, session_id, retained).actions;
            let first = actions.len() - l.buffered.len();
            &&& first >= 0
            &&& actions[first + i] == (LoopAction::Requeue {
                connection_id: pending.connection.connection_id,
                message: l.buffered[i],
            })
        }),
{
}

} // verus!
