//! What the client makes of an answer that it waited for: what it is left with, to the last field.

use crate::client::error::ClientError;
use crate::client::switching::{
    Connection, Loop, LoopAction, LoopEnd, LoopEvent, PendingActivation, ServerMessage, Waiting,
};
use vstd::prelude::*;

verus! {

/// A member that was asked to become active is awaited for ten seconds, under the identity that is
/// expected of it. A switch keeps the active connection until the member accepts, and a connection
/// that was suspended before is suspended again if it refuses; a fallback has nothing to keep.
/// Everything else stays as it is.
pub proof fn members_that_were_asked_are_awaited(l: Loop, now: u64)
    ensures
        ({
            let after = l.stepped(LoopEvent::Done, now);
            let deadline = (now + 10000) as u64;
            let waits = |pending: PendingActivation, active: Connection|
                Loop {
                    active,
                    pending: Some(pending),
                    buffered: Seq::empty(),
                    waiting: Waiting::Nothing,
                    ..l
                };
            &&& l.waiting matches Waiting::SwitchActivate { switch, candidate, request_id } ==> {
                &&& after.state == waits(
                    PendingActivation {
                        connection: candidate,
                        endpoint_id: switch.endpoint_id,
                        expected_resource: switch.resource,
                        expected_runtime_identity: Some(switch.identity),
                        request_id,
                        retain_current: true,
                        restore_if_rejected: switch.reused,
                        deadline,
                    },
                    l.active,
                )
                &&& after.actions.len() == 0 && after.end is None
            }
            &&& l.waiting matches Waiting::FallbackActivate { candidate, request_id, .. } ==> {
                &&& after.state == waits(
                    PendingActivation {
                        connection: candidate,
                        endpoint_id: candidate.member_id,
                        expected_resource: None,
                        expected_runtime_identity: match (candidate.server_id, candidate.session_id) {
                            (Some(server), Some(session)) => Some((server, session)),
                            _ => None,
                        },
                        request_id,
                        retain_current: false,
                        restore_if_rejected: false,
                        deadline,
                    },
                    l.active,
                )
                &&& after.end is None
            }
            &&& l.waiting matches Waiting::HandoffActivate { connection_id, request_id } ==> {
                &&& after.state == waits(
                    PendingActivation {
                        connection: Connection { connection_id, ..l.active },
                        endpoint_id: l.active.member_id,
                        expected_resource: None,
                        expected_runtime_identity: match (l.active.server_id, l.active.session_id) {
                            (Some(server), Some(session)) => Some((server, session)),
                            _ => None,
                        },
                        request_id,
                        retain_current: false,
                        restore_if_rejected: false,
                        deadline,
                    },
                    Connection { remote: false, ..l.active },
                )
                &&& after.end is None
            }
        }),
{
}

/// A member that was dialled gets a number of its own and is asked at once to become active, under a
/// request of its own; nothing else changes until it was asked.
pub proof fn members_that_were_dialled_are_asked(l: Loop, now: u64)
    ensures
        ({
            let after = l.stepped(LoopEvent::Done, now);
            let id = l.next_connection_id;
            let request_id = l.next_request_id;
            let asking = |waiting: Waiting|
                Loop {
                    next_connection_id: after.state.next_connection_id,
                    next_request_id: after.state.next_request_id,
                    waiting,
                    ..l
                };
            let dialled = l.waiting is FallbackReconnect || l.waiting is SwitchReconnect
                || l.waiting is SwitchStart || l.waiting is Handoff;
            &&& dialled ==> {
                &&& after.state.next_connection_id != id
                &&& after.state.next_request_id != request_id
                &&& after.actions.len() == 1 && after.end is None
                &&& after.actions[0] matches LoopAction::Activate { connection_id, request_id: r, .. }
                &&& connection_id == id && r == request_id
            }
            &&& l.waiting matches Waiting::FallbackReconnect { candidate, why } ==> after.state
                == asking(
                Waiting::FallbackActivate {
                    candidate: Connection { connection_id: id, ..candidate },
                    request_id,
                    why,
                },
            )
            &&& l.waiting matches Waiting::SwitchReconnect { switch, candidate } ==> after.state
                == asking(
                Waiting::SwitchActivate {
                    switch,
                    candidate: Connection { connection_id: id, ..candidate },
                    request_id,
                },
            )
            &&& l.waiting matches Waiting::SwitchStart { switch } ==> after.state == asking(
                Waiting::SwitchActivate {
                    switch,
                    candidate: Connection {
                        member_id: switch.endpoint_id,
                        server_id: Some(switch.identity.0),
                        session_id: Some(switch.identity.1),
                        connection_id: id,
                        remote: true,
                        mouse_capture_active: l.active.mouse_capture_active,
                        window_title: None,
                        prefix_input_source_active: false,
                        is_remote_client: true,
                    },
                    request_id,
                },
            )
            &&& l.waiting is Handoff ==> after.state == asking(
                Waiting::HandoffActivate { connection_id: id, request_id },
            )
        }),
{
}

/// The member that a connection turned over to is the active one, with the identity that it gave;
/// nothing is pending, held back or waited for any more, and the home server is recognised if it is
/// the one. The old connection is kept where it was told to wait, and only there.
pub proof fn taking_over_settles_everything(
    l: Loop,
    pending: PendingActivation,
    server_id: String,
    session_id: String,
    error: ClientError,
    text: String,
    now: u64,
)
    requires
        l.waiting == (Waiting::Suspend { pending, server_id, session_id }),
    ensures
        ({
            let told = l.stepped(LoopEvent::Done, now);
            let untold = l.stepped(LoopEvent::Failed { error, text }, now);
            let settled = |suspended: Seq<Connection>|
                Loop {
                    active: Connection {
                        server_id: Some(server_id),
                        session_id: Some(session_id),
                        ..pending.connection
                    },
                    suspended,
                    home_connection_id: if pending.connection.member_id@ == l.home_member_id@ {
                        pending.connection.connection_id
                    } else {
                        l.home_connection_id
                    },
                    pending: None,
                    buffered: Seq::empty(),
                    connecting: None,
                    waiting: Waiting::Nothing,
                    ..l
                };
            &&& told.state == settled(l.suspended.push(l.active)) && told.end is None
            &&& untold.state == settled(l.suspended) && untold.end is None
        }),
{
}

/// A member that accepted under the expected identity takes over at once where nothing is kept;
/// otherwise the active connection is told to wait first, and that is all that changes.
pub proof fn acceptance_is_acted_on(
    l: Loop,
    pending: PendingActivation,
    member_id: String,
    server_id: String,
    session_id: String,
    now: u64,
)
    requires
        l.pending == Some(pending),
        pending.endpoint_id@ == member_id@,
        pending.expected_resource is None,
        pending.expected_runtime_identity matches Some((server, session)) ==> server@ == server_id@
            && session@ == session_id@,
    ensures
        ({
            let event = LoopEvent::Message {
                connection_id: pending.connection.connection_id,
                message: ServerMessage::ActivationResult {
                    request_id: pending.request_id,
                    accepted: true,
                    member_id,
                    server_id,
                    session_id,
                    error: None,
                },
            };
            let heard = l.stepped(event, now);
            &&& pending.retain_current ==> heard.state == (Loop {
                pending: None,
                waiting: Waiting::Suspend { pending, server_id, session_id },
                ..l
            })
            &&& !pending.retain_current ==> heard.state == (Loop {
                active: Connection {
                    server_id: Some(server_id),
                    session_id: Some(session_id),
                    ..pending.connection
                },
                home_connection_id: if pending.connection.member_id@ == l.home_member_id@ {
                    pending.connection.connection_id
                } else {
                    l.home_connection_id
                },
                pending: None,
                buffered: Seq::empty(),
                connecting: None,
                waiting: Waiting::Nothing,
                ..l
            })
        }),
{
}

/// A member that is already active is drawn again once it was asked; where it or the successor of the
/// active server cannot be asked, the connection is lost and the client ends.
pub proof fn lost_requests_end_the_client(l: Loop, error: ClientError, text: String, now: u64)
    requires
        l.waiting is CurrentActivate || l.waiting is HandoffActivate,
    ensures
        ({
            let asked = l.stepped(LoopEvent::Done, now);
            let failed = l.stepped(LoopEvent::Failed { error, text }, now);
            &&& l.waiting is CurrentActivate ==> asked.state == (Loop {
                waiting: Waiting::Nothing,
                ..l
            }) && asked.actions == seq![LoopAction::FullRedraw] && asked.end is None
            &&& failed.state == (Loop { waiting: Waiting::Nothing, ..l })
            &&& failed.end == Some(LoopEnd::Lost(text)) && failed.actions.len() == 0
        }),
{
}

/// The home server that was dialled again stands where it stood, under its new number, until it says
/// who it is.
pub proof fn a_dialled_home_server_is_asked_who_it_is(l: Loop, index: usize, now: u64)
    requires
        l.waiting == (Waiting::HomeReconnect { index }),
        index < l.suspended.len(),
        l.pending is None,
    ensures
        ({
            let after = l.stepped(LoopEvent::Done, now);
            let id = l.next_connection_id;
            &&& after.state == (Loop {
                next_connection_id: after.state.next_connection_id,
                suspended: l.suspended.update(
                    index as int,
                    Connection { connection_id: id, ..l.suspended[index as int] },
                ),
                disconnected: l.disconnected.remove(l.home_connection_id),
                home_candidate_id: Some(id),
                home_retry_at: None,
                waiting: Waiting::Nothing,
                ..l
            })
            &&& after.state.next_connection_id != id
            &&& after.actions.len() == 0 && after.end is None
        }),
{
}

/// Nothing comes of an answer that is not waited for, and the client leaves when it is told to.
pub proof fn quitting_takes_leave(l: Loop, error: ClientError, text: String, now: u64)
    ensures
        l.waiting is Nothing ==> {
            let answered = l.stepped(LoopEvent::Done, now);
            let failed = l.stepped(LoopEvent::Failed { error, text }, now);
            &&& answered.state == l && answered.actions.len() == 0 && answered.end is None
            &&& failed.state == l && failed.actions.len() == 0 && failed.end is None
        },
        l.stepped(LoopEvent::Quit, now).actions == seq![LoopAction::SendDetach],
        l.stepped(LoopEvent::Quit, now).end == Some(LoopEnd::Exit),
        l.stepped(LoopEvent::Quit, now).state == l,
{
}

} // verus!
