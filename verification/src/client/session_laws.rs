//! What the client promises of its session, event by event and from one event to the next.

use crate::client::error::ClientError;
use crate::client::switching::{
    member_is, Connection, FederationConnectingUi, Loop, LoopAction, LoopEnd, LoopEvent, NotifyKind,
    PendingActivation, Rejection, ServerMessage, SessionMessage, Toast, Waiting,
};
use crate::federation::directory::{endpoints, id_is, merged};
use crate::federation::endpoint::{EndpointState, FederatedResourceRef};
use crate::search::{first_hit, lemma_first_hit};
use vstd::prelude::*;

verus! {

/// Whatever comes on a connection is not for a member that is still to acknowledge.
pub open spec fn not_pending(l: Loop, connection_id: u64) -> bool {
    l.pending matches Some(pending) ==> pending.connection.connection_id != connection_id
}

/// An event that a connection brings.
pub open spec fn from(connection_id: u64, message: ServerMessage) -> LoopEvent {
    LoopEvent::Message { connection_id, message }
}

/// What the active server puts on its screen is shown, each time by exactly one action: frames and
/// terminal output always, images where the terminal takes them. Nothing else changes.
pub proof fn active_output_is_shown(l: Loop, now: u64)
    requires
        not_pending(l, l.active.connection_id),
    ensures
        ({
            let id = l.active.connection_id;
            let frame = l.stepped(from(id, ServerMessage::Frame), now);
            let terminal = l.stepped(from(id, ServerMessage::Terminal), now);
            let images = l.stepped(from(id, ServerMessage::Graphics), now);
            &&& frame.actions == seq![LoopAction::ShowFrame]
            &&& terminal.actions == seq![
                LoopAction::ShowTerminal { track_graphics: l.kitty_graphics_enabled },
            ]
            &&& l.kitty_graphics_enabled ==> images.actions == seq![LoopAction::ShowGraphics]
            &&& !l.kitty_graphics_enabled ==> images.actions.len() == 0
            &&& frame.state == l && terminal.state == l && images.state == l
            &&& frame.end is None && terminal.end is None && images.end is None
        }),
{
}

/// What the active server says about its session takes effect at once and is remembered with the
/// connection: mouse capture (where it changes), title, prefix input, sounds, clipboard and
/// notifications.
pub proof fn active_session_messages_take_effect(
    l: Loop,
    enabled: bool,
    title: Option<String>,
    data: String,
    kind: NotifyKind,
    message: String,
    body: Option<String>,
    now: u64,
)
    requires
        not_pending(l, l.active.connection_id),
    ensures
        ({
            let id = l.active.connection_id;
            let mouse = l.stepped(
                from(id, ServerMessage::Session(SessionMessage::MouseCapture { enabled })),
                now,
            );
            let titled = l.stepped(
                from(id, ServerMessage::Session(SessionMessage::WindowTitle { title })),
                now,
            );
            let prefix = l.stepped(
                from(
                    id,
                    ServerMessage::Session(SessionMessage::PrefixInputSource { active: enabled }),
                ),
                now,
            );
            let sounds = l.stepped(
                from(id, ServerMessage::Session(SessionMessage::ReloadSoundConfig)),
                now,
            );
            let clip = l.stepped(
                from(id, ServerMessage::Session(SessionMessage::Clipboard { data })),
                now,
            );
            let note = l.stepped(
                from(id, ServerMessage::Session(SessionMessage::Notify { kind, message, body })),
                now,
            );
            &&& mouse.state == (Loop {
                active: Connection { mouse_capture_active: enabled, ..l.active },
                ..l
            })
            &&& l.active.mouse_capture_active != enabled ==> mouse.actions == seq![
                LoopAction::SetMouseCapture { enabled },
            ]
            &&& l.active.mouse_capture_active == enabled ==> mouse.actions.len() == 0
            &&& titled.state == (Loop {
                active: Connection { window_title: title, ..l.active },
                ..l
            })
            &&& titled.actions == seq![LoopAction::WriteTitle { title }]
            &&& prefix.state == (Loop {
                active: Connection { prefix_input_source_active: enabled, ..l.active },
                ..l
            })
            &&& prefix.actions == seq![LoopAction::SetPrefixInput { active: enabled }]
            &&& sounds.state == l && sounds.actions == seq![LoopAction::ReloadConfig]
            &&& clip.state == l && clip.actions == seq![LoopAction::ForwardClipboard { data }]
            &&& note.state == l && note.actions == seq![LoopAction::Notify { kind, message, body }]
            &&& mouse.end is None && titled.end is None && prefix.end is None && sounds.end is None
                && clip.end is None && note.end is None
        }),
{
}

/// A new size is told to the active server and remembered; leaving tells it and ends the client.
pub proof fn the_terminal_is_followed(
    l: Loop,
    cols: u16,
    rows: u16,
    cell_width_px: u32,
    cell_height_px: u32,
    now: u64,
)
    ensures
        ({
            let sized = l.stepped(
                LoopEvent::Resize { cols, rows, cell_width_px, cell_height_px },
                now,
            );
            &&& sized.actions == seq![
                LoopAction::SendResize { cols, rows, cell_width_px, cell_height_px },
            ]
            &&& sized.state == (Loop { reported_size: (cols, rows), ..l })
            &&& sized.end is None
        }),
        l.stepped(LoopEvent::Quit, now).actions == seq![LoopAction::SendDetach],
        l.stepped(LoopEvent::Quit, now).end == Some(LoopEnd::Exit),
{
}

/// What a member says before it acknowledges is neither shown nor lost: messages about its session
/// are kept, in their order, for the time when it is active.
pub proof fn early_messages_wait(
    l: Loop,
    pending: PendingActivation,
    message: SessionMessage,
    now: u64,
)
    requires
        l.pending == Some(pending),
    ensures
        ({
            let id = pending.connection.connection_id;
            let session = l.stepped(from(id, ServerMessage::Session(message)), now);
            let frame = l.stepped(from(id, ServerMessage::Frame), now);
            let terminal = l.stepped(from(id, ServerMessage::Terminal), now);
            let images = l.stepped(from(id, ServerMessage::Graphics), now);
            &&& session.state == (Loop { buffered: l.buffered.push(message), ..l })
            &&& session.actions.len() == 0 && session.end is None
            &&& frame.state == l && frame.actions.len() == 0 && frame.end is None
            &&& terminal.state == l && terminal.actions.len() == 0 && terminal.end is None
            &&& images.state == l && images.actions.len() == 0 && images.end is None
        }),
{
}

/// A connection that is neither active nor pending counts as broken off once it shuts down, and is
/// otherwise not shown.
pub proof fn suspended_connections_wait(
    l: Loop,
    connection_id: u64,
    reason: Option<String>,
    message: SessionMessage,
    now: u64,
)
    requires
        connection_id != l.active.connection_id,
        not_pending(l, connection_id),
    ensures
        ({
            let gone = l.stepped(from(connection_id, ServerMessage::Shutdown { reason }), now);
            let session = l.stepped(from(connection_id, ServerMessage::Session(message)), now);
            let frame = l.stepped(from(connection_id, ServerMessage::Frame), now);
            let terminal = l.stepped(from(connection_id, ServerMessage::Terminal), now);
            &&& gone.state == (Loop { disconnected: l.disconnected.insert(connection_id), ..l })
            &&& gone.actions.len() == 0 && gone.end is None
            &&& session.state == l && session.actions.len() == 0 && session.end is None
            &&& frame.state == l && frame.actions.len() == 0 && frame.end is None
            &&& terminal.state == l && terminal.actions.len() == 0 && terminal.end is None
        }),
{
}

/// A member that is asked for and that cannot be switched to is answered with a notification that
/// says why, and nothing else happens: it is not in the directory, nothing is known of it, it is
/// known under another identity, or another switch is on its way.
pub proof fn refused_switches_say_why(
    l: Loop,
    endpoint_id: String,
    resource: Option<FederatedResourceRef>,
    directory: Vec<EndpointState>,
    at: int,
    now: u64,
)
    requires
        not_pending(l, l.active.connection_id),
    ensures
        ({
            let asked = l.stepped(
                from(
                    l.active.connection_id,
                    ServerMessage::Attach { endpoint_id, resource, directory },
                ),
                now,
            );
            let listed = asked.state.directory;
            let first = 0 <= at < listed.len() && listed[at].endpoint.id@ == endpoint_id@ && forall|
                j: int,
            |
                0 <= j < at ==> (#[trigger] listed[j]).endpoint.id@ != endpoint_id@;
            let runtime = listed[at].snapshot->0.identity;
            let meant = resource matches Some(r) ==> r.endpoint_id@ == endpoint_id@ && r.server_id@
                == runtime.server_id@ && r.session_id@ == runtime.session_id@;
            let said = |toast: Toast|
                asked.actions == seq![LoopAction::ShowToast(toast)] && asked.end is None
                    && asked.state == (Loop { directory: listed, ..l });
            &&& l.active.connection_id == l.home_connection_id ==> listed == merged(
                l.directory,
                endpoints(directory@),
            )
            &&& l.active.connection_id != l.home_connection_id ==> listed == l.directory
            &&& (forall|j: int|
                0 <= j < listed.len() ==> (#[trigger] listed[j]).endpoint.id@ != endpoint_id@)
                ==> said(Toast::Untrusted)
            &&& first && listed[at].snapshot is None ==> said(Toast::Unavailable)
            &&& first && listed[at].snapshot is Some && !meant ==> said(Toast::Stale)
            &&& first && listed[at].snapshot is Some && meant && l.pending is Some ==> said(
                Toast::InProgress,
            )
        }),
{
    let listed = if l.active.connection_id == l.home_connection_id {
        merged(l.directory, endpoints(directory@))
    } else {
        l.directory
    };
    lemma_first_hit(listed, id_is(endpoint_id@), 0);
    let hit = first_hit(listed, id_is(endpoint_id@), 0);
    if hit < listed.len() {
        assert(listed[hit].endpoint.id@ == endpoint_id@);
    }
    if 0 <= at < listed.len() && listed[at].endpoint.id@ == endpoint_id@ && hit < at {
        assert(listed[hit].endpoint.id@ == endpoint_id@);
    }
    if 0 <= at < hit {
        assert(!id_is(endpoint_id@)(listed[at]));
    }
}

/// A member can be switched to: it is in the directory, its identity is known there and is the one
/// that is asked for, and no other switch is on its way.
pub open spec fn can_switch(
    l: Loop,
    at: int,
    endpoint_id: String,
    resource: Option<FederatedResourceRef>,
) -> bool {
    &&& 0 <= at < l.directory.len()
    &&& l.directory[at].endpoint.id@ == endpoint_id@
    &&& forall|j: int| 0 <= j < at ==> (#[trigger] l.directory[j]).endpoint.id@ != endpoint_id@
    &&& l.directory[at].snapshot is Some
    &&& resource matches Some(r) ==> {
        &&& r.endpoint_id@ == endpoint_id@
        &&& r.server_id@ == l.directory[at].snapshot->0.identity.server_id@
        &&& r.session_id@ == l.directory[at].snapshot->0.identity.session_id@
    }
    &&& l.pending is None
}

/// A suspended connection to the member is the first one to it.
pub open spec fn first_suspended(l: Loop, k: int, member_id: Seq<char>) -> bool {
    &&& 0 <= k < l.suspended.len()
    &&& l.suspended[k].member_id@ == member_id
    &&& forall|j: int| 0 <= j < k ==> (#[trigger] l.suspended[j]).member_id@ != member_id
}

pub open spec fn none_suspended(l: Loop, member_id: Seq<char>) -> bool {
    forall|j: int| 0 <= j < l.suspended.len() ==> (#[trigger] l.suspended[j]).member_id@ != member_id
}

proof fn lemma_places(l: Loop, at: int, k: int, endpoint_id: Seq<char>)
    requires
        0 <= at < l.directory.len(),
        l.directory[at].endpoint.id@ == endpoint_id,
        forall|j: int| 0 <= j < at ==> (#[trigger] l.directory[j]).endpoint.id@ != endpoint_id,
        l.suspended.len() <= usize::MAX,
    ensures
        first_hit(l.directory, id_is(endpoint_id), 0) == at,
        first_suspended(l, k, endpoint_id) ==> first_hit(l.suspended, member_is(endpoint_id), 0)
            == k,
        none_suspended(l, endpoint_id) ==> first_hit(l.suspended, member_is(endpoint_id), 0)
            == l.suspended.len(),
{
    lemma_first_hit(l.directory, id_is(endpoint_id), 0);
    lemma_first_hit(l.suspended, member_is(endpoint_id), 0);
    let hit = first_hit(l.directory, id_is(endpoint_id), 0);
    if at < hit {
        assert(!id_is(endpoint_id)(l.directory[at]));
    }
    if hit < at {
        assert(l.directory[hit].endpoint.id@ == endpoint_id);
    }
    let other = first_hit(l.suspended, member_is(endpoint_id), 0);
    if first_suspended(l, k, endpoint_id) {
        if k < other {
            assert(!member_is(endpoint_id)(l.suspended[k]));
        }
        if other < k {
            assert(l.suspended[other].member_id@ == endpoint_id);
        }
    }
    if none_suspended(l, endpoint_id) && other < l.suspended.len() {
        assert(l.suspended[other].member_id@ == endpoint_id);
    }
}

/// The client after the directory that comes with a request: the home server's is taken in, that of
/// any other server is not.
pub open spec fn listening(l: Loop, directory: Vec<EndpointState>) -> Loop {
    if l.active.connection_id == l.home_connection_id {
        Loop { directory: merged(l.directory, endpoints(directory@)), ..l }
    } else {
        l
    }
}

/// The event with which the active server asks for a member.
pub open spec fn asks_for(
    l: Loop,
    endpoint_id: String,
    resource: Option<FederatedResourceRef>,
    directory: Vec<EndpointState>,
) -> LoopEvent {
    from(l.active.connection_id, ServerMessage::Attach { endpoint_id, resource, directory })
}

/// The member at the other end of a connection accepts what it was asked.
pub open spec fn accepts(
    connection_id: u64,
    request_id: u64,
    member_id: String,
    server_id: String,
    session_id: String,
) -> LoopEvent {
    from(
        connection_id,
        ServerMessage::ActivationResult {
            request_id,
            accepted: true,
            member_id,
            server_id,
            session_id,
            error: None,
        },
    )
}

/// A switch to a member that is shown already asks that member, over the active connection, to show
/// what is asked for; once it is told, everything is drawn anew. If it cannot be told, the client
/// ends.
pub proof fn switching_to_the_active_member_asks_it(
    l: Loop,
    at: int,
    endpoint_id: String,
    resource: Option<FederatedResourceRef>,
    directory: Vec<EndpointState>,
    error: ClientError,
    text: String,
    now: u64,
    later: u64,
)
    requires
        can_switch(listening(l, directory), at, endpoint_id, resource),
        l.active.member_id@ == endpoint_id@,
        l.suspended.len() <= usize::MAX,
    ensures
        ({
            let asked = l.stepped(asks_for(l, endpoint_id, resource, directory), now);
            let told = asked.state.stepped(LoopEvent::Done, later);
            let lost = asked.state.stepped(LoopEvent::Failed { error, text }, later);
            &&& asked.actions == seq![
                LoopAction::Activate {
                    connection_id: l.active.connection_id,
                    request_id: l.next_request_id,
                    member_id: endpoint_id,
                    resource,
                    presentation: true,
                },
            ]
            &&& asked.state.active == l.active && asked.state.suspended == l.suspended
            &&& told.actions == seq![LoopAction::FullRedraw] && told.end is None
            &&& told.state.active == l.active && told.state.suspended == l.suspended
            &&& told.state.pending is None && told.state.waiting is Nothing
            &&& lost.end == Some(LoopEnd::Lost(text))
        }),
{
    lemma_places(listening(l, directory), at, 0, endpoint_id@);
}

/// A switch to a member that was never dialled, if all goes well: its bridge is started with the
/// target and session of the directory; over the new connection it is asked to become active; its
/// acknowledgement under the known identity has the old server told that it is suspended; and then
/// the new connection is active and the old one is the latest of the suspended ones. An old server
/// that cannot be told is closed.
pub proof fn new_members_are_switched_to(
    l: Loop,
    at: int,
    endpoint_id: String,
    resource: Option<FederatedResourceRef>,
    directory: Vec<EndpointState>,
    error: ClientError,
    text: String,
    times: (u64, u64, u64, u64, u64),
)
    requires
        can_switch(listening(l, directory), at, endpoint_id, resource),
        l.active.member_id@ != endpoint_id@,
        none_suspended(l, endpoint_id@),
        l.suspended.len() <= usize::MAX,
    ensures
        ({
            let runtime = listening(l, directory).directory[at].snapshot->0.identity;
            let asked = l.stepped(asks_for(l, endpoint_id, resource, directory), times.0);
            let dialled = asked.state.stepped(LoopEvent::Done, times.1);
            let told = dialled.state.stepped(LoopEvent::Done, times.2);
            let accepted = told.state.stepped(
                accepts(
                    l.next_connection_id,
                    l.next_request_id,
                    endpoint_id,
                    runtime.server_id,
                    runtime.session_id,
                ),
                times.3,
            );
            let taken = accepted.state.stepped(LoopEvent::Done, times.4);
            let alone = accepted.state.stepped(LoopEvent::Failed { error, text }, times.4);
            &&& asked.actions == seq![
                LoopAction::DrawConnecting,
                LoopAction::StartRemote {
                    target: listening(l, directory).directory[at].endpoint.target,
                    session: listening(l, directory).directory[at].endpoint.session,
                    to: l.next_connection_id,
                },
            ]
            &&& asked.state.connecting == Some(
                FederationConnectingUi {
                    member_label: match listening(l, directory).directory[at].endpoint.label {
                        Some(label) => label,
                        None => endpoint_id,
                    },
                    tick: 0,
                },
            )
            &&& dialled.actions == seq![
                LoopAction::Activate {
                    connection_id: l.next_connection_id,
                    request_id: l.next_request_id,
                    member_id: endpoint_id,
                    resource,
                    presentation: true,
                },
            ]
            &&& dialled.state.next_connection_id != l.next_connection_id
            &&& dialled.state.next_request_id != l.next_request_id
            &&& told.actions.len() == 0
            &&& told.state.active == l.active
            &&& told.state.pending is Some
            &&& told.state.pending->0.deadline == (times.2 + 10000) as u64
            &&& accepted.actions == seq![
                LoopAction::AskSuspend { connection_id: l.active.connection_id },
            ]
            &&& accepted.state.active == l.active
            &&& taken.state.active.connection_id == l.next_connection_id
            &&& taken.state.active.member_id@ == endpoint_id@
            &&& taken.state.active.server_id == Some(runtime.server_id)
            &&& taken.state.active.session_id == Some(runtime.session_id)
            &&& taken.state.active.remote && taken.state.active.is_remote_client
            &&& taken.state.suspended == l.suspended.push(l.active)
            &&& taken.state.pending is None && taken.state.waiting is Nothing
            &&& taken.state.connecting is None && taken.state.directory == listening(l, directory).directory
            &&& taken.end is None
            &&& taken.actions.contains(LoopAction::Promote { connection_id: l.next_connection_id })
            &&& alone.state.active == taken.state.active
            &&& alone.state.suspended == l.suspended
            &&& alone.actions.contains(
                LoopAction::Drop { connection_id: l.active.connection_id },
            )
        }),
{
    lemma_places(listening(l, directory), at, 0, endpoint_id@);
    let runtime = listening(l, directory).directory[at].snapshot->0.identity;
    let asked = l.stepped(asks_for(l, endpoint_id, resource, directory), times.0);
    let dialled = asked.state.stepped(LoopEvent::Done, times.1);
    let told = dialled.state.stepped(LoopEvent::Done, times.2);
    let accepted = told.state.stepped(
        accepts(
            l.next_connection_id,
            l.next_request_id,
            endpoint_id,
            runtime.server_id,
            runtime.session_id,
        ),
        times.3,
    );
    let taken = accepted.state.stepped(LoopEvent::Done, times.4);
    let alone = accepted.state.stepped(LoopEvent::Failed { error, text }, times.4);
    assert(taken.actions[0] == LoopAction::Promote { connection_id: l.next_connection_id });
    assert(alone.actions[0] == LoopAction::Drop { connection_id: l.active.connection_id });
}

/// A switch to a member whose connection is suspended, if all goes well: that connection is taken
/// out of the suspended ones and asked to become active, after it was dialled again if it broke off
/// meanwhile; and in the end it is active and the old one is the latest of the suspended ones.
#[verifier::spinoff_prover]
#[verifier::rlimit(40)]
pub proof fn suspended_members_are_switched_to(
    l: Loop,
    at: int,
    k: int,
    endpoint_id: String,
    resource: Option<FederatedResourceRef>,
    directory: Vec<EndpointState>,
    times: (u64, u64, u64, u64, u64),
)
    requires
        can_switch(listening(l, directory), at, endpoint_id, resource),
        l.active.member_id@ != endpoint_id@,
        first_suspended(l, k, endpoint_id@),
        l.suspended.len() <= usize::MAX,
    ensures
        ({
            let runtime = listening(l, directory).directory[at].snapshot->0.identity;
            let candidate = l.suspended[k];
            let broke = l.disconnected.contains(candidate.connection_id);
            let id = if broke {
                l.next_connection_id
            } else {
                candidate.connection_id
            };
            let asked = l.stepped(asks_for(l, endpoint_id, resource, directory), times.0);
            let dialled = if broke {
                asked.state.stepped(LoopEvent::Done, times.1)
            } else {
                asked
            };
            let told = dialled.state.stepped(LoopEvent::Done, times.2);
            let accepted = told.state.stepped(
                accepts(
                    id,
                    l.next_request_id,
                    endpoint_id,
                    runtime.server_id,
                    runtime.session_id,
                ),
                times.3,
            );
            let taken = accepted.state.stepped(LoopEvent::Done, times.4);
            &&& asked.actions[0] == LoopAction::DrawConnecting
            &&& asked.actions.len() == 2
            &&& broke ==> asked.actions[1] == (LoopAction::Reconnect {
                from: candidate.connection_id,
                to: l.next_connection_id,
            })
            &&& dialled.actions.last() == (LoopAction::Activate {
                connection_id: id,
                request_id: l.next_request_id,
                member_id: endpoint_id,
                resource,
                presentation: true,
            })
            &&& asked.state.suspended == l.suspended.remove(k)
            &&& !asked.state.disconnected.contains(candidate.connection_id)
            &&& told.actions.len() == 0 && told.state.active == l.active
            &&& accepted.actions == seq![
                LoopAction::AskSuspend { connection_id: l.active.connection_id },
            ]
            &&& taken.state.active == (Connection {
                connection_id: id,
                server_id: Some(runtime.server_id),
                session_id: Some(runtime.session_id),
                ..candidate
            })
            &&& taken.state.suspended == l.suspended.remove(k).push(l.active)
            &&& taken.state.pending is None && taken.state.waiting is Nothing && taken.end is None
        }),
{
    let h = listening(l, directory);
    lemma_places(h, at, k, endpoint_id@);
    let runtime = h.directory[at].snapshot->0.identity;
    let candidate = l.suspended[k];
    let asked = l.stepped(asks_for(l, endpoint_id, resource, directory), times.0);
    if l.disconnected.contains(candidate.connection_id) {
        let id = l.next_connection_id;
        assert(asked.state.waiting is SwitchReconnect);
        let dialled = asked.state.stepped(LoopEvent::Done, times.1);
        assert(dialled.state.waiting is SwitchActivate);
        let told = dialled.state.stepped(LoopEvent::Done, times.2);
        assert(told.state.pending->0.connection == (Connection { connection_id: id, ..candidate }));
        assert(told.state.pending->0.request_id == l.next_request_id);
        assert(told.state.pending->0.retain_current);
    } else {
        let id = candidate.connection_id;
        assert(asked.state.waiting is SwitchActivate);
        let told = asked.state.stepped(LoopEvent::Done, times.2);
        assert(told.state.pending->0.connection == candidate);
        assert(told.state.pending->0.request_id == l.next_request_id);
        assert(told.state.pending->0.retain_current);
    }
}

/// A switch that does not come about, because the member cannot be dialled or told, leaves the
/// active connection and says so; a connection that was lost on the way is closed.
pub proof fn failed_switches_are_reported(l: Loop, error: ClientError, text: String, now: u64)
    requires
        l.waiting is SwitchReconnect || l.waiting is SwitchStart || l.waiting is SwitchActivate,
    ensures
        ({
            let failed = l.stepped(LoopEvent::Failed { error, text }, now);
            let switch = match l.waiting {
                Waiting::SwitchReconnect { switch, .. } => switch,
                Waiting::SwitchStart { switch } => switch,
                Waiting::SwitchActivate { switch, .. } => switch,
                _ => arbitrary(),
            };
            &&& failed.end is None
            &&& failed.state == (Loop { connecting: None, waiting: Waiting::Nothing, ..l })
            &&& failed.actions.contains(
                LoopAction::ShowToast(
                    Toast::CouldNotOpen { endpoint_id: switch.endpoint_id, error: text },
                ),
            )
            &&& l.waiting matches Waiting::SwitchReconnect { candidate, .. }
                ==> failed.actions.contains(
                LoopAction::Drop { connection_id: candidate.connection_id },
            )
            &&& l.waiting matches Waiting::SwitchActivate { candidate, .. }
                ==> failed.actions.contains(
                LoopAction::Drop { connection_id: candidate.connection_id },
            )
            &&& l.connecting is Some ==> failed.actions[0] == LoopAction::RestoreFrame
        }),
{
    let failed = l.stepped(LoopEvent::Failed { error, text }, now);
    let base: int = if l.connecting is Some {
        1
    } else {
        0
    };
    match l.waiting {
        Waiting::SwitchReconnect { switch, candidate } => {
            assert(failed.actions[base] == LoopAction::Drop {
                connection_id: candidate.connection_id,
            });
            assert(failed.actions[base + 1] is ShowToast);
        },
        Waiting::SwitchStart { switch } => {
            assert(failed.actions[base] is ShowToast);
        },
        Waiting::SwitchActivate { switch, candidate, .. } => {
            assert(failed.actions[base] == LoopAction::Drop {
                connection_id: candidate.connection_id,
            });
            assert(failed.actions[base + 1] is ShowToast);
        },
        _ => {},
    }
}

/// With nobody pending, a lost active server is replaced by the connection that was suspended last:
/// it is asked to become active, after it was dialled again if it broke off meanwhile; and once it
/// acknowledges under the identity it had, it is active and the lost connection is closed.
pub proof fn lost_servers_are_replaced(
    l: Loop,
    event: LoopEvent,
    server_id: String,
    session_id: String,
    times: (u64, u64, u64, u64),
)
    requires
        l.pending is None,
        l.suspended.len() > 0,
        match event {
            LoopEvent::WriteFailed { .. } => true,
            LoopEvent::Disconnected { connection_id } => connection_id == l.active.connection_id,
            LoopEvent::Message { connection_id, message } => {
                &&& connection_id == l.active.connection_id
                &&& message matches ServerMessage::Shutdown { reason }
                &&& reason matches Some(why) ==> why@ != "detached"@ && why@ != l.handoff_reason@
            },
            _ => false,
        },
        l.suspended.last().server_id == Some(server_id),
        l.suspended.last().session_id == Some(session_id),
    ensures
        ({
            let candidate = l.suspended.last();
            let broke = l.disconnected.contains(candidate.connection_id);
            let id = if broke {
                l.next_connection_id
            } else {
                candidate.connection_id
            };
            let lost = l.stepped(event, times.0);
            let dialled = if broke {
                lost.state.stepped(LoopEvent::Done, times.1)
            } else {
                lost
            };
            let told = dialled.state.stepped(LoopEvent::Done, times.2);
            let taken = told.state.stepped(
                accepts(id, l.next_request_id, candidate.member_id, server_id, session_id),
                times.3,
            );
            &&& lost.end is None && lost.state.suspended == l.suspended.drop_last()
            &&& broke ==> lost.actions == seq![
                LoopAction::Reconnect { from: candidate.connection_id, to: l.next_connection_id },
            ] && !lost.state.disconnected.contains(candidate.connection_id)
            &&& dialled.actions == seq![
                LoopAction::Activate {
                    connection_id: id,
                    request_id: l.next_request_id,
                    member_id: candidate.member_id,
                    resource: None,
                    presentation: false,
                },
            ]
            &&& told.end is None && told.state.active == l.active
            &&& told.state.pending is Some
            &&& told.state.pending->0.deadline == (times.2 + 10000) as u64
            &&& event is Message ==> told.actions == seq![
                LoopAction::ShowToast(Toast::MemberDisconnected),
                LoopAction::FullRedraw,
            ]
            &&& event is Disconnected ==> told.actions == seq![
                LoopAction::ShowToast(Toast::RemoteDisconnected),
            ]
            &&& event is WriteFailed ==> told.actions.len() == 0
            &&& taken.state.active == (Connection { connection_id: id, ..candidate })
            &&& taken.state.suspended == l.suspended.drop_last()
            &&& taken.state.pending is None && taken.end is None
            &&& taken.actions[0] == (LoopAction::Drop { connection_id: l.active.connection_id })
            &&& taken.actions[1] == (LoopAction::Promote { connection_id: id })
        }),
{
}

/// A suspended connection that cannot be dialled or told is closed, and the one suspended before it
/// is turned to in the same way.
pub proof fn fallbacks_go_down_the_list(l: Loop, error: ClientError, text: String, now: u64)
    requires
        l.waiting is FallbackReconnect || l.waiting is FallbackActivate,
    ensures
        ({
            let failed = l.stepped(LoopEvent::Failed { error, text }, now);
            let (candidate, why) = match l.waiting {
                Waiting::FallbackReconnect { candidate, why } => (candidate, why),
                Waiting::FallbackActivate { candidate, why, .. } => (candidate, why),
                _ => arbitrary(),
            };
            let next = l.suspended.last();
            &&& failed.actions[0] == (LoopAction::Drop { connection_id: candidate.connection_id })
            &&& failed.state.active == l.active
            &&& l.suspended.len() > 0 ==> {
                &&& failed.end is None
                &&& failed.state.suspended == l.suspended.drop_last()
                &&& failed.actions.len() == 2
                &&& l.disconnected.contains(next.connection_id) ==> failed.actions[1] == (
                LoopAction::Reconnect { from: next.connection_id, to: l.next_connection_id })
                &&& !l.disconnected.contains(next.connection_id) ==> failed.actions[1] == (
                LoopAction::Activate {
                    connection_id: next.connection_id,
                    request_id: l.next_request_id,
                    member_id: next.member_id,
                    resource: None,
                    presentation: false,
                })
            }
            &&& l.suspended.len() == 0 ==> failed.actions.len() == 1 && failed.end is Some
        }),
{
}

/// With nothing pending and nothing suspended, losing the active server ends the client, and the end
/// says how it was lost; a server from which the user detached ends it in any case.
pub proof fn the_last_server_ends_the_client(
    l: Loop,
    error: String,
    reason: Option<String>,
    detached: String,
    now: u64,
)
    requires
        not_pending(l, l.active.connection_id),
        reason matches Some(why) ==> why@ != "detached"@ && why@ != l.handoff_reason@,
        detached@ == "detached"@,
        detached@ != l.handoff_reason@,
    ensures
        ({
            let id = l.active.connection_id;
            let alone = l.pending is None && l.suspended.len() == 0;
            &&& alone ==> l.stepped(LoopEvent::WriteFailed { error }, now).end == Some(
                LoopEnd::Lost(error),
            )
            &&& alone ==> l.stepped(LoopEvent::Disconnected { connection_id: id }, now).end == Some(
                LoopEnd::Closed,
            )
            &&& alone ==> l.stepped(from(id, ServerMessage::Shutdown { reason }), now).end == Some(
                LoopEnd::Shutdown { reason },
            )
            &&& l.stepped(from(id, ServerMessage::Shutdown { reason: Some(detached) }), now).end
                == Some(LoopEnd::Shutdown { reason: Some(detached) })
        }),
{
}

/// While a member is still to acknowledge, losing the active server only makes the client wait for
/// it: the member will take over without anything to suspend.
pub proof fn pending_members_are_awaited(l: Loop, pending: PendingActivation, error: String, now: u64)
    requires
        l.pending == Some(pending),
        pending.connection.connection_id != l.active.connection_id,
    ensures
        ({
            let failed = l.stepped(LoopEvent::WriteFailed { error }, now);
            let closed = l.stepped(
                LoopEvent::Disconnected { connection_id: l.active.connection_id },
                now,
            );
            let waits = Loop {
                pending: Some(PendingActivation { retain_current: false, ..pending }),
                waiting: Waiting::Nothing,
                ..l
            };
            &&& failed.state == waits && failed.actions.len() == 0 && failed.end is None
            &&& closed.state == waits && closed.actions.len() == 0 && closed.end is None
        }),
{
}

/// The member that answers is not the one that was asked: another member, or one that runs another
/// server or session than the target or the directory says.
pub open spec fn is_other(
    pending: PendingActivation,
    member_id: Seq<char>,
    server_id: Seq<char>,
    session_id: Seq<char>,
) -> bool {
    ||| member_id != pending.endpoint_id@
    ||| pending.expected_resource matches Some(r) && (r.server_id@ != server_id || r.session_id@
        != session_id)
    ||| pending.expected_runtime_identity matches Some(known) && (known.0@ != server_id || known.1@
        != session_id)
}

/// How a pending switch comes to nothing.
pub open spec fn gives_up(l: Loop, pending: PendingActivation, event: LoopEvent, now: u64) -> bool {
    match event {
        LoopEvent::Message { connection_id, message } => {
            &&& connection_id == pending.connection.connection_id
            &&& message matches ServerMessage::ActivationResult {
                request_id,
                accepted,
                member_id,
                server_id,
                session_id,
                ..
            }
            &&& request_id == pending.request_id
            &&& !accepted || is_other(pending, member_id@, server_id@, session_id@)
        },
        LoopEvent::Disconnected { connection_id } => connection_id
            == pending.connection.connection_id,
        LoopEvent::Timer => {
            &&& now >= pending.deadline
            &&& l.connecting is None
            &&& l.active.connection_id == l.home_connection_id
        },
        _ => false,
    }
}

/// A member that refuses, breaks off or takes too long is not switched to: nothing is pending any
/// more and a notification says what happened. Where the active server is still there it stays
/// active. A connection that was suspended before is suspended again, unless it broke off or another
/// member refused; any other is closed.
pub proof fn refusals_leave_things_as_they_were(
    l: Loop,
    pending: PendingActivation,
    event: LoopEvent,
    now: u64,
)
    requires
        l.pending == Some(pending),
        gives_up(l, pending, event, now),
        pending.retain_current,
    ensures
        ({
            let id = pending.connection.connection_id;
            let after = l.stepped(event, now);
            let keep = pending.restore_if_rejected && (event is Timer || (
            event matches LoopEvent::Message {
                message: ServerMessage::ActivationResult { member_id, .. },
                ..
            } && member_id@ == pending.endpoint_id@));
            &&& after.end is None
            &&& after.state.active == l.active
            &&& after.state.pending is None && after.state.buffered.len() == 0
            &&& after.state.connecting is None && after.state.waiting is Nothing
            &&& after.state.suspended == (if keep {
                l.suspended.push(pending.connection)
            } else {
                l.suspended
            })
            &&& after.actions.contains(LoopAction::Drop { connection_id: id }) == !keep
            &&& after.actions.contains(LoopAction::SendSuspend { connection_id: id }) == !(
            event is Disconnected)
            &&& event is Disconnected ==> after.actions.contains(
                LoopAction::ShowToast(Toast::PendingDisconnected),
            )
            &&& event is Timer ==> after.actions.contains(
                LoopAction::ShowToast(Toast::PendingTimedOut),
            )
            &&& event matches LoopEvent::Message {
                message: ServerMessage::ActivationResult {
                    member_id,
                    server_id,
                    session_id,
                    error,
                    ..
                },
                ..
            } ==> after.actions.contains(
                LoopAction::ShowToast(
                    Toast::ActivationRejected {
                        endpoint_id: Some(pending.endpoint_id),
                        detail: match error {
                            Some(text) => Rejection::Given(text),
                            None => Rejection::Identity { member_id, server_id, session_id },
                        },
                    },
                ),
            )
        }),
{
    let after = l.stepped(event, now);
    let base: int = if l.connecting is Some {
        1
    } else {
        0
    };
    if event is Disconnected {
        assert(after.actions[base] == LoopAction::ShowToast(Toast::PendingDisconnected));
        assert(after.actions[base + 1] is Drop);
        assert(after.actions.len() == base + 2);
    } else {
        assert(after.actions[base] is SendSuspend);
        assert(after.actions[base + 1] is ShowToast);
        if after.actions.len() > base + 2 {
            assert(after.actions[base + 2] is Drop);
        }
    }
}

/// Where the active server is gone too, a pending member that comes to nothing makes the client turn
/// to the connection that was suspended last; with none left the client ends.
pub proof fn refusals_without_an_active_server_fall_back(
    l: Loop,
    pending: PendingActivation,
    event: LoopEvent,
    now: u64,
)
    requires
        l.pending == Some(pending),
        gives_up(l, pending, event, now),
        !pending.retain_current,
        !pending.restore_if_rejected,
    ensures
        ({
            let after = l.stepped(event, now);
            let next = l.suspended.last();
            &&& after.state.pending is None && after.state.active == l.active
            &&& after.actions.contains(
                LoopAction::Drop { connection_id: pending.connection.connection_id },
            )
            &&& l.suspended.len() == 0 ==> after.end == Some(LoopEnd::NoneHealthy)
            &&& l.suspended.len() > 0 ==> after.end is None && after.state.suspended
                == l.suspended.drop_last()
            &&& l.suspended.len() > 0 && l.disconnected.contains(next.connection_id)
                ==> after.actions.last() == (LoopAction::Reconnect {
                from: next.connection_id,
                to: l.next_connection_id,
            })
            &&& l.suspended.len() > 0 && !l.disconnected.contains(next.connection_id)
                ==> after.actions.last() == (LoopAction::Activate {
                connection_id: next.connection_id,
                request_id: l.next_request_id,
                member_id: next.member_id,
                resource: None,
                presentation: false,
            })
        }),
{
    let after = l.stepped(event, now);
    if event is Disconnected {
        assert(after.actions[1] is Drop);
    } else {
        assert(after.actions[2] is Drop);
    }
}

/// A member that was asked and answers as itself takes over. Where the active server is still there
/// it is told first that it is suspended; where it is gone, the member is active at once.
pub proof fn acknowledged_members_take_over(
    l: Loop,
    pending: PendingActivation,
    member_id: String,
    server_id: String,
    session_id: String,
    error: ClientError,
    text: String,
    now: u64,
    later: u64,
)
    requires
        l.pending == Some(pending),
        !is_other(pending, member_id@, server_id@, session_id@),
    ensures
        ({
            let heard = l.stepped(
                accepts(
                    pending.connection.connection_id,
                    pending.request_id,
                    member_id,
                    server_id,
                    session_id,
                ),
                now,
            );
            let told = heard.state.stepped(LoopEvent::Done, later);
            let untold = heard.state.stepped(LoopEvent::Failed { error, text }, later);
            let taken = Connection {
                server_id: Some(server_id),
                session_id: Some(session_id),
                ..pending.connection
            };
            &&& pending.retain_current ==> {
                &&& heard.state.active == l.active && heard.end is None
                &&& heard.actions == seq![
                    LoopAction::AskSuspend { connection_id: l.active.connection_id },
                ]
                &&& told.state.active == taken && told.end is None
                &&& told.state.suspended == l.suspended.push(l.active)
                &&& untold.state.active == taken && untold.end is None
                &&& untold.state.suspended == l.suspended
                &&& told.actions == turning_over(l, taken, false)
                &&& untold.actions == turning_over(l, taken, true)
                &&& told.state.pending is None && untold.state.pending is None
            }
            &&& !pending.retain_current ==> {
                &&& heard.state.active == taken && heard.end is None
                &&& heard.state.suspended == l.suspended && heard.state.pending is None
                &&& heard.actions == turning_over(l, taken, true)
            }
        }),
{
    let heard = l.stepped(
        accepts(
            pending.connection.connection_id,
            pending.request_id,
            member_id,
            server_id,
            session_id,
        ),
        now,
    );
    let told = heard.state.stepped(LoopEvent::Done, later);
    let untold = heard.state.stepped(LoopEvent::Failed { error, text }, later);
    let taken = Connection {
        server_id: Some(server_id),
        session_id: Some(session_id),
        ..pending.connection
    };
    if pending.retain_current {
        assert(told.actions =~= turning_over(l, taken, false));
        assert(untold.actions =~= turning_over(l, taken, true));
    } else {
        assert(heard.actions =~= turning_over(l, taken, true));
    }
}

/// The terminal is turned over to a connection: the old one is closed where it is not kept, what is
/// sent goes to the new one, the terminal's mouse capture, title and prefix input become those of
/// the new one, everything is drawn anew, the size is told, and then what the new one said early is
/// taken up in its order.
pub open spec fn turning_over(l: Loop, taken: Connection, close_old: bool) -> Seq<LoopAction> {
    (if close_old {
        seq![LoopAction::Drop { connection_id: l.active.connection_id }]
    } else {
        Seq::empty()
    }) + seq![LoopAction::Promote { connection_id: taken.connection_id }] + (if
    l.active.mouse_capture_active != taken.mouse_capture_active {
        seq![LoopAction::SetMouseCapture { enabled: taken.mouse_capture_active }]
    } else {
        Seq::empty()
    }) + seq![
        LoopAction::WriteTitle { title: taken.window_title },
        LoopAction::SetPrefixInput { active: taken.prefix_input_source_active },
        LoopAction::FullRedraw,
        LoopAction::ReportSize,
    ] + Seq::new(
        l.buffered.len(),
        |i: int|
            LoopAction::Requeue { connection_id: taken.connection_id, message: l.buffered[i] },
    )
}

/// While a member is dialled and awaited, the progress moves on with time and is drawn; a member that
/// still has time stays pending, and nothing else changes.
pub proof fn time_moves_the_progress(l: Loop, now: u64)
    requires
        l.pending matches Some(pending) ==> now < pending.deadline,
        l.home_retry_at matches Some(at) ==> now < at,
    ensures
        ({
            let after = l.stepped(LoopEvent::Timer, now);
            &&& after.end is None
            &&& l.pending is Some && l.connecting is Some ==> {
                &&& after.actions == seq![LoopAction::DrawConnecting]
                &&& after.state.connecting is Some
                &&& after.state.connecting->0.member_label == l.connecting->0.member_label
                &&& l.connecting->0.tick < u64::MAX ==> after.state.connecting->0.tick
                    == l.connecting->0.tick + 1
                &&& after.state == (Loop { connecting: after.state.connecting, ..l })
            }
            &&& l.pending is None || l.connecting is None ==> after.state == l
                && after.actions.len() == 0
        }),
{
}

/// A home server that broke off while another member is shown is dialled again when its time has
/// come: over the first suspended connection to it, which gets a new number and stays suspended, and
/// whose identity is not trusted yet. A failed attempt is made again a second later.
pub proof fn the_home_server_is_dialled_again(
    l: Loop,
    k: int,
    error: ClientError,
    text: String,
    now: u64,
    later: u64,
)
    requires
        l.pending is None,
        l.active.connection_id != l.home_connection_id,
        l.home_candidate_id is None,
        l.home_retry_at matches Some(at) && at <= now,
        first_suspended(l, k, l.home_member_id@),
        l.suspended.len() <= usize::MAX,
    ensures
        ({
            let due = l.stepped(LoopEvent::Timer, now);
            let dialled = due.state.stepped(LoopEvent::Done, later);
            let failed = due.state.stepped(LoopEvent::Failed { error, text }, later);
            &&& due.actions == seq![
                LoopAction::Reconnect {
                    from: l.suspended[k].connection_id,
                    to: l.next_connection_id,
                },
            ]
            &&& dialled.state.suspended == l.suspended.update(
                k,
                Connection { connection_id: l.next_connection_id, ..l.suspended[k] },
            )
            &&& dialled.state.home_candidate_id == Some(l.next_connection_id)
            &&& dialled.state.home_connection_id == l.home_connection_id
            &&& dialled.state.home_retry_at is None
            &&& dialled.state.next_connection_id != l.next_connection_id
            &&& dialled.actions.len() == 0 && dialled.end is None
            &&& failed.state == (Loop {
                home_retry_at: Some((later + 1000) as u64),
                waiting: Waiting::Nothing,
                ..l
            })
            &&& failed.actions.len() == 0 && failed.end is None
            &&& due.state.active == l.active && dialled.state.active == l.active
        }),
{
    lemma_first_hit(l.suspended, member_is(l.home_member_id@), 0);
    let other = first_hit(l.suspended, member_is(l.home_member_id@), 0);
    if k < other {
        assert(!member_is(l.home_member_id@)(l.suspended[k]));
    }
    if other < k {
        assert(l.suspended[other].member_id@ == l.home_member_id@);
    }
}

/// A server that was dialled in place of the home server becomes the home server only if it says that
/// it is the same member, server and session; otherwise it counts as broken off and is dialled again
/// a second later.
pub proof fn the_home_server_is_recognised(
    l: Loop,
    k: int,
    member_id: String,
    server_id: String,
    session_id: String,
    now: u64,
)
    requires
        0 <= k < l.suspended.len(),
        l.home_candidate_id == Some(l.suspended[k].connection_id),
        forall|j: int|
            0 <= j < l.suspended.len() && j != k ==> (#[trigger] l.suspended[j]).connection_id
                != l.suspended[k].connection_id,
    ensures
        ({
            let id = l.suspended[k].connection_id;
            let told = l.stepped(
                from(id, ServerMessage::Identity { member_id, server_id, session_id }),
                now,
            );
            let known = l.suspended[k];
            let same = known.member_id@ == l.home_member_id@ && member_id@ == l.home_member_id@ && (
            known.server_id matches Some(s) && s@ == server_id@) && (
            known.session_id matches Some(s) && s@ == session_id@);
            &&& told.actions.len() == 0 && told.end is None
            &&& told.state.home_candidate_id is None
            &&& same ==> told.state.home_connection_id == id && told.state.home_retry_at is None
                && !told.state.disconnected.contains(id)
            &&& !same ==> told.state.home_connection_id == l.home_connection_id
                && told.state.home_retry_at == Some((now + 1000) as u64)
                && told.state.disconnected.contains(id)
            &&& told.state.active == l.active && told.state.suspended == l.suspended
                && told.state.pending == l.pending && told.state.directory == l.directory
        }),
{
    assert(l.suspended[k].connection_id == l.suspended[k].connection_id);
}

/// The home server names itself: the member it says it is, is the home member, and the active
/// connection carries that identity where it is the home connection. What other servers say they are
/// is not taken.
pub proof fn servers_name_themselves(
    l: Loop,
    connection_id: u64,
    member_id: String,
    server_id: String,
    session_id: String,
    now: u64,
)
    requires
        l.home_candidate_id != Some(connection_id),
    ensures
        ({
            let told = l.stepped(
                from(connection_id, ServerMessage::Identity { member_id, server_id, session_id }),
                now,
            );
            let home = connection_id == l.home_connection_id;
            &&& told.actions.len() == 0 && told.end is None
            &&& !home ==> told.state == l
            &&& home ==> told.state.home_member_id == member_id
            &&& home && connection_id == l.active.connection_id ==> told.state.active == (
            Connection {
                member_id,
                server_id: Some(server_id),
                session_id: Some(session_id),
                ..l.active
            })
            &&& home && connection_id != l.active.connection_id ==> told.state.active == l.active
            &&& told.state.suspended == l.suspended && told.state.pending == l.pending
                && told.state.directory == l.directory && told.state.home_connection_id
                == l.home_connection_id
        }),
{
}

/// The home server's directory is taken in, everything is drawn anew, and where another member is
/// shown it is told the directory first. Other servers' directories are not taken.
pub proof fn the_home_directory_is_passed_on(
    l: Loop,
    connection_id: u64,
    directory: Vec<EndpointState>,
    now: u64,
)
    ensures
        ({
            let told = l.stepped(
                from(connection_id, ServerMessage::DirectoryUpdate { directory }),
                now,
            );
            &&& told.end is None
            &&& connection_id != l.home_connection_id ==> told.state == l && told.actions.len() == 0
            &&& connection_id == l.home_connection_id ==> told.state == (Loop {
                directory: merged(l.directory, endpoints(directory@)),
                ..l
            })
            &&& connection_id == l.home_connection_id && l.active.connection_id == connection_id
                ==> told.actions == seq![LoopAction::FullRedraw]
            &&& connection_id == l.home_connection_id && l.active.connection_id != connection_id
                ==> told.actions == seq![LoopAction::SendDirectory, LoopAction::FullRedraw]
        }),
{
}

/// A suspended connection that breaks off is noted and changes nothing else; where it is the home
/// server's, it is due to be dialled again at once.
pub proof fn broken_suspended_connections_are_noted(l: Loop, connection_id: u64, now: u64)
    requires
        connection_id != l.active.connection_id,
        not_pending(l, connection_id),
    ensures
        ({
            let broke = l.stepped(LoopEvent::Disconnected { connection_id }, now);
            let home = connection_id == l.home_connection_id || l.home_candidate_id == Some(
                connection_id,
            );
            &&& broke.actions.len() == 0 && broke.end is None
            &&& home ==> broke.state == (Loop {
                disconnected: l.disconnected.insert(connection_id),
                home_candidate_id: None,
                home_retry_at: Some(now),
                ..l
            })
            &&& !home ==> broke.state == (Loop {
                disconnected: l.disconnected.insert(connection_id),
                ..l
            })
        }),
{
}

/// A server that hands over to its successor, if all goes well: the successor is dialled, asked to
/// become active as the same member, and once it acknowledges it is active in place of the old
/// connection, which is closed; no suspended connection is touched. Whatever else was pending is
/// closed. A successor that cannot be told ends the client.
pub proof fn successors_take_over(
    l: Loop,
    reason: String,
    server_id: String,
    session_id: String,
    error: ClientError,
    text: String,
    times: (u64, u64, u64, u64),
)
    requires
        not_pending(l, l.active.connection_id),
        reason@ == l.handoff_reason@,
        l.active.server_id == Some(server_id),
        l.active.session_id == Some(session_id),
    ensures
        ({
            let id = l.active.connection_id;
            let parting = l.stepped(
                from(id, ServerMessage::Shutdown { reason: Some(reason) }),
                times.0,
            );
            let dialled = parting.state.stepped(LoopEvent::Done, times.1);
            let told = dialled.state.stepped(LoopEvent::Done, times.2);
            let untold = dialled.state.stepped(LoopEvent::Failed { error, text }, times.2);
            let taken = told.state.stepped(
                accepts(
                    l.next_connection_id,
                    l.next_request_id,
                    l.active.member_id,
                    server_id,
                    session_id,
                ),
                times.3,
            );
            &&& parting.actions == seq![
                LoopAction::Handoff { remote: l.active.remote, to: l.next_connection_id },
            ]
            &&& parting.end is None
            &&& dialled.actions == seq![
                LoopAction::Activate {
                    connection_id: l.next_connection_id,
                    request_id: l.next_request_id,
                    member_id: l.active.member_id,
                    resource: None,
                    presentation: false,
                },
            ]
            &&& l.pending is None ==> told.actions.len() == 0
            &&& l.pending matches Some(other) ==> told.actions == seq![
                LoopAction::Drop { connection_id: other.connection.connection_id },
            ]
            &&& told.end is None
            &&& untold.end == Some(LoopEnd::Lost(text))
            &&& taken.state.active == (Connection {
                connection_id: l.next_connection_id,
                ..l.active
            })
            &&& taken.state.suspended == l.suspended && taken.state.pending is None
            &&& taken.end is None
            &&& taken.actions[0] == (LoopAction::Drop { connection_id: id })
            &&& taken.actions[1] == (LoopAction::Promote { connection_id: l.next_connection_id })
        }),
{
}

/// A successor that cannot be dialled: with a suspended connection left the client says so and goes
/// on as after any shutdown; with none it ends with the error.
pub proof fn lost_successors_fall_back(
    l: Loop,
    reason: String,
    error: ClientError,
    text: String,
    now: u64,
)
    requires
        l.waiting == (Waiting::Handoff { reason: Some(reason) }),
        l.pending is None,
        reason@ != "detached"@,
    ensures
        ({
            let failed = l.stepped(LoopEvent::Failed { error, text }, now);
            &&& l.suspended.len() == 0 ==> failed.end == Some(LoopEnd::Failed(error))
            &&& l.suspended.len() > 0 ==> {
                &&& failed.end is None
                &&& failed.state.suspended == l.suspended.drop_last()
                &&& failed.actions.len() == 2
                &&& failed.actions[0] == LoopAction::ShowToast(Toast::RemoteChanged)
            }
        }),
{
}

/// An answer of the active server to what it was asked to show: an acceptance changes nothing, a
/// refusal is shown.
pub proof fn active_refusals_are_shown(
    l: Loop,
    request_id: u64,
    accepted: bool,
    member_id: String,
    server_id: String,
    session_id: String,
    error: Option<String>,
    now: u64,
)
    requires
        not_pending(l, l.active.connection_id),
    ensures
        ({
            let heard = l.stepped(
                from(
                    l.active.connection_id,
                    ServerMessage::ActivationResult {
                        request_id,
                        accepted,
                        member_id,
                        server_id,
                        session_id,
                        error,
                    },
                ),
                now,
            );
            &&& heard.state == l && heard.end is None
            &&& accepted ==> heard.actions.len() == 0
            &&& !accepted ==> heard.actions == seq![
                LoopAction::ShowToast(
                    Toast::ActivationRejected {
                        endpoint_id: None,
                        detail: match error {
                            Some(text) => Rejection::Given(text),
                            None => Rejection::Member { member_id },
                        },
                    },
                ),
            ]
        }),
{
}

} // verus!
