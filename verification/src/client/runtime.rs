//! The client's loop at work.

use crate::client::error::ClientError;
use crate::client::switching::{
    both, home_identity_matches, identity_matches, member_is, next_number, plan_for, quiet,
    ClientLoop, Connection, Fallback, FederationConnectingUi, FederationConnectionPlan, Loop,
    LoopAction, LoopEnd, LoopEvent, Outcome, PendingActivation, Rejection, ServerMessage,
    SessionMessage, Switch, Toast, Waiting, DIRECTORY_AUTHORITY_RECONNECT_MS,
    FEDERATION_ACTIVATION_TIMEOUT_MS,
};
use crate::federation::directory::{endpoints, find_state, merge_federation_directory};
use crate::federation::endpoint::{EndpointState, FederatedResourceRef};
use crate::schema::same_option;
use crate::search::first_hit;
use crate::text::same_text;
use std::collections::HashSet;
use vstd::prelude::*;

verus! {

broadcast use vstd::std_specs::hash::group_hash_axioms;

/// The outcome is that of the model, behind the actions there were.
pub open spec fn carried_out(
    outcome: Outcome,
    state: Loop,
    before: Seq<LoopAction>,
    actions: Seq<LoopAction>,
    end: Option<LoopEnd>,
) -> bool {
    &&& state == outcome.state
    &&& actions == before + outcome.actions
    &&& end == outcome.end
}

fn number_after(n: u64) -> (r: u64)
    ensures
        r == next_number(n),
{
    if n == u64::MAX {
        0
    } else {
        n + 1
    }
}

fn both_known(a: &Option<String>, b: &Option<String>) -> (r: Option<(String, String)>)
    ensures
        r == both(*a, *b),
{
    match (a, b) {
        (Some(x), Some(y)) => Some((x.clone(), y.clone())),
        _ => None,
    }
}

fn copy_resource(resource: &Option<FederatedResourceRef>) -> (r: Option<FederatedResourceRef>)
    ensures
        r == *resource,
{
    match resource {
        Some(known) => Some(known.clone()),
        None => None,
    }
}

fn find_member(connections: &Vec<Connection>, id: &str) -> (r: usize)
    ensures
        r == first_hit(connections@, member_is(id@), 0),
        r <= connections@.len(),
{
    let mut at: usize = 0;
    while at < connections.len()
        invariant
            at <= connections@.len(),
            first_hit(connections@, member_is(id@), 0) == first_hit(
                connections@,
                member_is(id@),
                at as int,
            ),
        decreases connections@.len() - at,
    {
        if same_text(connections[at].member_id.as_str(), id) {
            return at;
        }
        at += 1;
    }
    at
}

/// How a member is reached.
pub fn federation_connection_plan(
    active_member_id: &str,
    suspended: &Vec<Connection>,
    destination_member_id: &str,
) -> (r: FederationConnectionPlan)
    ensures
        r == plan_for(active_member_id@, suspended@, destination_member_id@),
{
    if same_text(active_member_id, destination_member_id) {
        return FederationConnectionPlan::Current;
    }
    let at = find_member(suspended, destination_member_id);
    if at < suspended.len() {
        FederationConnectionPlan::Suspended(at)
    } else {
        FederationConnectionPlan::New
    }
}

/// Whether a member that acknowledges is the one that was asked.
pub fn federation_activation_identity_matches(
    expected_member_id: &str,
    expected_resource: &Option<FederatedResourceRef>,
    expected_runtime_identity: &Option<(String, String)>,
    member_id: &str,
    server_id: &str,
    session_id: &str,
) -> (r: bool)
    ensures
        r == identity_matches(
            expected_member_id@,
            *expected_resource,
            *expected_runtime_identity,
            member_id@,
            server_id@,
            session_id@,
        ),
{
    let resource_fits = match expected_resource {
        Some(resource) => same_text(resource.server_id.as_str(), server_id) && same_text(
            resource.session_id.as_str(),
            session_id,
        ),
        None => true,
    };
    let runtime_fits = match expected_runtime_identity {
        Some(runtime) => same_text(runtime.0.as_str(), server_id) && same_text(
            runtime.1.as_str(),
            session_id,
        ),
        None => true,
    };
    same_text(member_id, expected_member_id) && resource_fits && runtime_fits
}

/// The server and session that an endpoint's snapshot knows.
pub fn federated_endpoint_runtime_identity(state: &EndpointState) -> (r: Option<(String, String)>)
    ensures
        r == (match state@.snapshot {
            Some(snapshot) => Some((snapshot.identity.server_id, snapshot.identity.session_id)),
            None => None,
        }),
{
    match &state.snapshot {
        Some(snapshot) => Some(
            (snapshot.identity.server_id.clone(), snapshot.identity.session_id.clone()),
        ),
        None => None,
    }
}

fn known_is(known: &Option<String>, text: &str) -> (r: bool)
    ensures
        r == (known matches Some(k) && k@ == text@),
{
    match known {
        Some(k) => same_text(k.as_str(), text),
        None => false,
    }
}

/// Whether a server that is dialled again is the home server whose connection was suspended.
pub fn directory_authority_identity_matches(
    connection_member_id: &str,
    connection_server_id: &Option<String>,
    connection_session_id: &Option<String>,
    authority_member_id: &str,
    member_id: &str,
    server_id: &str,
    session_id: &str,
) -> (r: bool)
    ensures
        r == home_identity_matches(
            connection_member_id@,
            *connection_server_id,
            *connection_session_id,
            authority_member_id@,
            member_id@,
            server_id@,
            session_id@,
        ),
{
    same_text(connection_member_id, authority_member_id) && same_text(
        connection_member_id,
        member_id,
    ) && known_is(connection_server_id, server_id) && known_is(connection_session_id, session_id)
}

impl ClientLoop {
    /// The loop of a client that has just shaken hands with the server of `local_member_id`.
    pub fn new(
        local_member_id: String,
        is_remote_client: bool,
        mouse_capture_active: bool,
        kitty_graphics_enabled: bool,
        reported_size: (u16, u16),
        handoff_reason: String,
    ) -> (r: Self)
        ensures
            r@ == (Loop {
                active: Connection {
                    member_id: local_member_id,
                    server_id: None,
                    session_id: None,
                    connection_id: 1,
                    remote: false,
                    mouse_capture_active,
                    window_title: None,
                    prefix_input_source_active: false,
                    is_remote_client,
                },
                suspended: Seq::empty(),
                disconnected: Set::empty(),
                next_connection_id: 2,
                next_request_id: 1,
                pending: None,
                buffered: Seq::empty(),
                home_member_id: local_member_id,
                home_connection_id: 1,
                home_candidate_id: None,
                home_retry_at: None,
                directory: Seq::empty(),
                connecting: None,
                waiting: Waiting::Nothing,
                reported_size,
                kitty_graphics_enabled,
                handoff_reason,
            }),
    {
        let active = Connection {
            member_id: local_member_id.clone(),
            server_id: None,
            session_id: None,
            connection_id: 1,
            remote: false,
            mouse_capture_active,
            window_title: None,
            prefix_input_source_active: false,
            is_remote_client,
        };
        let directory: Vec<EndpointState> = Vec::new();
        assert(endpoints(directory@) =~= Seq::empty());
        ClientLoop {
            active,
            suspended: Vec::new(),
            disconnected: HashSet::new(),
            next_connection_id: 2,
            next_request_id: 1,
            pending: None,
            buffered: Vec::new(),
            home_member_id: local_member_id,
            home_connection_id: 1,
            home_candidate_id: None,
            home_retry_at: None,
            directory,
            connecting: None,
            waiting: Waiting::Nothing,
            reported_size,
            kitty_graphics_enabled,
            handoff_reason,
        }
    }

    fn exhausted(&mut self, why: Fallback, acts: &mut Vec<LoopAction>) -> (r: Option<LoopEnd>)
        ensures
            carried_out(old(self)@.exhausted(why), final(self)@, old(acts)@, final(acts)@, r),
    {
        self.waiting = Waiting::Nothing;
        assert(acts@ =~= acts@ + Seq::<LoopAction>::empty());
        match why {
            Fallback::WriteFailed { error } => Some(LoopEnd::Lost(error)),
            Fallback::PendingLost => Some(LoopEnd::NoneHealthy),
            Fallback::Shutdown { reason } => Some(LoopEnd::Shutdown { reason }),
            Fallback::Closed => Some(LoopEnd::Closed),
        }
    }

    fn ask_fallback(&mut self, candidate: Connection, why: Fallback, acts: &mut Vec<LoopAction>) -> (r:
        Option<LoopEnd>)
        ensures
            carried_out(
                old(self)@.ask_fallback(candidate, why),
                final(self)@,
                old(acts)@,
                final(acts)@,
                r,
            ),
    {
        let request_id = self.next_request_id;
        self.next_request_id = number_after(request_id);
        acts.push(
            LoopAction::Activate {
                connection_id: candidate.connection_id,
                request_id,
                member_id: candidate.member_id.clone(),
                resource: None,
                presentation: false,
            },
        );
        self.waiting = Waiting::FallbackActivate { candidate, request_id, why };
        assert(acts@ =~= old(acts)@ + old(self)@.ask_fallback(candidate, why).actions);
        None
    }

    /// Takes a connection out of those that broke off; says whether it was one.
    fn take_disconnected(&mut self, connection_id: u64) -> (r: bool)
        ensures
            r == old(self)@.disconnected.contains(connection_id),
            final(self)@ == (Loop {
                disconnected: old(self)@.disconnected.remove(connection_id),
                ..old(self)@
            }),
    {
        self.disconnected.remove(&connection_id)
    }

    fn begin_suspended_fallback(&mut self, why: Fallback, acts: &mut Vec<LoopAction>) -> (r: Option<
        LoopEnd,
    >)
        ensures
            carried_out(old(self)@.fall_back(why), final(self)@, old(acts)@, final(acts)@, r),
    {
        let candidate = match self.suspended.pop() {
            Some(candidate) => candidate,
            None => return self.exhausted(why, acts),
        };
        assert(self@.suspended == old(self)@.suspended.drop_last());
        assert(self@ =~= Loop { suspended: old(self)@.suspended.drop_last(), ..old(self)@ });
        if self.take_disconnected(candidate.connection_id) {
            acts.push(
                LoopAction::Reconnect {
                    from: candidate.connection_id,
                    to: self.next_connection_id,
                },
            );
            self.waiting = Waiting::FallbackReconnect { candidate, why };
            assert(acts@ =~= old(acts)@ + old(self)@.fall_back(why).actions);
            None
        } else {
            assert(old(self)@.disconnected.remove(candidate.connection_id)
                =~= old(self)@.disconnected);
            self.ask_fallback(candidate, why, acts)
        }
    }

    fn fallback_asked(
        &mut self,
        candidate: Connection,
        request_id: u64,
        why: Fallback,
        now: u64,
        acts: &mut Vec<LoopAction>,
    ) -> (r: Option<LoopEnd>)
        requires
            now + FEDERATION_ACTIVATION_TIMEOUT_MS <= u64::MAX,
        ensures
            carried_out(
                old(self)@.fallback_asked(candidate, request_id, why, now),
                final(self)@,
                old(acts)@,
                final(acts)@,
                r,
            ),
    {
        self.pending = Some(
            PendingActivation {
                endpoint_id: candidate.member_id.clone(),
                expected_resource: None,
                expected_runtime_identity: both_known(&candidate.server_id, &candidate.session_id),
                connection: candidate,
                request_id,
                retain_current: false,
                restore_if_rejected: false,
                deadline: now + FEDERATION_ACTIVATION_TIMEOUT_MS,
            },
        );
        self.buffered = Vec::new();
        self.waiting = Waiting::Nothing;
        match why {
            Fallback::Shutdown { .. } => {
                acts.push(LoopAction::ShowToast(Toast::MemberDisconnected));
                acts.push(LoopAction::FullRedraw);
            },
            Fallback::Closed => {
                acts.push(LoopAction::ShowToast(Toast::RemoteDisconnected));
            },
            _ => {},
        }
        assert(self@ =~= old(self)@.fallback_asked(candidate, request_id, why, now).state);
        assert(acts@ =~= old(acts)@ + old(self)@.fallback_asked(
            candidate,
            request_id,
            why,
            now,
        ).actions);
        None
    }

    fn lose_active(&mut self, why: Fallback, acts: &mut Vec<LoopAction>) -> (r: Option<LoopEnd>)
        ensures
            carried_out(old(self)@.lose_active(why), final(self)@, old(acts)@, final(acts)@, r),
    {
        match self.pending.take() {
            Some(pending) => {
                let mut kept = pending;
                kept.retain_current = false;
                self.pending = Some(kept);
                self.waiting = Waiting::Nothing;
                assert(acts@ =~= acts@ + Seq::<LoopAction>::empty());
                None
            },
            None => {
                assert(self@ =~= old(self)@);
                self.begin_suspended_fallback(why, acts)
            },
        }
    }

    /// Ends the progress and, where it is asked for, draws the frame without it.
    fn clear_connecting_ui(&mut self, restore: bool, acts: &mut Vec<LoopAction>)
        ensures
            final(self)@ == (Loop { connecting: None, ..old(self)@ }),
            final(acts)@ == old(acts)@ + old(self)@.uncover(restore),
    {
        if FederationConnectingUi::finish(&mut self.connecting) && restore {
            acts.push(LoopAction::RestoreFrame);
        }
        assert(acts@ =~= old(acts)@ + old(self)@.uncover(restore));
    }

    fn abandon(
        &mut self,
        pending: PendingActivation,
        suspend: bool,
        keep: bool,
        toast: Toast,
        acts: &mut Vec<LoopAction>,
    ) -> (r: Option<LoopEnd>)
        ensures
            carried_out(
                old(self)@.abandon(pending, suspend, keep, toast),
                final(self)@,
                old(acts)@,
                final(acts)@,
                r,
            ),
    {
        let connection_id = pending.connection.connection_id;
        let retain_current = pending.retain_current;
        self.clear_connecting_ui(retain_current, acts);
        if suspend {
            acts.push(LoopAction::SendSuspend { connection_id });
        }
        acts.push(LoopAction::ShowToast(toast));
        if keep {
            self.suspended.push(pending.connection);
        } else {
            acts.push(LoopAction::Drop { connection_id });
        }
        self.pending = None;
        self.buffered = Vec::new();
        self.waiting = Waiting::Nothing;
        let ghost state = Loop {
            pending: None,
            buffered: Seq::empty(),
            connecting: None,
            suspended: if keep {
                old(self)@.suspended.push(pending.connection)
            } else {
                old(self)@.suspended
            },
            waiting: Waiting::Nothing,
            ..old(self)@
        };
        let ghost own = old(self)@.uncover(pending.retain_current) + (if suspend {
            seq![LoopAction::SendSuspend { connection_id }]
        } else {
            Seq::empty()
        }) + seq![LoopAction::ShowToast(toast)] + (if keep {
            Seq::empty()
        } else {
            seq![LoopAction::Drop { connection_id }]
        });
        assert(self@ =~= state);
        assert(acts@ =~= old(acts)@ + own);
        if retain_current {
            None
        } else {
            let ghost mid = acts@;
            let r = self.begin_suspended_fallback(Fallback::PendingLost, acts);
            assert(acts@ =~= old(acts)@ + (own + state.fall_back(Fallback::PendingLost).actions));
            r
        }
    }

    fn commit(
        &mut self,
        pending: PendingActivation,
        server_id: String,
        session_id: String,
        retained: bool,
        acts: &mut Vec<LoopAction>,
    ) -> (r: Option<LoopEnd>)
        ensures
            carried_out(
                old(self)@.commit(pending, server_id, session_id, retained),
                final(self)@,
                old(acts)@,
                final(acts)@,
                r,
            ),
    {
        let ghost model = old(self)@.commit(pending, server_id, session_id, retained);
        let ghost parts = (if retained {
            Seq::empty()
        } else {
            seq![LoopAction::Drop { connection_id: old(self)@.active.connection_id }]
        }) + seq![LoopAction::Promote { connection_id: pending.connection.connection_id }] + (if
        old(self)@.active.mouse_capture_active != pending.connection.mouse_capture_active {
            seq![LoopAction::SetMouseCapture { enabled: pending.connection.mouse_capture_active }]
        } else {
            Seq::empty()
        }) + seq![
            LoopAction::WriteTitle { title: pending.connection.window_title },
            LoopAction::SetPrefixInput { active: pending.connection.prefix_input_source_active },
            LoopAction::FullRedraw,
            LoopAction::ReportSize,
        ];
        let mut taken = pending.connection;
        let connection_id = taken.connection_id;
        let switches_mouse = self.active.mouse_capture_active != taken.mouse_capture_active;
        if !retained {
            acts.push(LoopAction::Drop { connection_id: self.active.connection_id });
        }
        acts.push(LoopAction::Promote { connection_id });
        if switches_mouse {
            acts.push(LoopAction::SetMouseCapture { enabled: taken.mouse_capture_active });
        }
        acts.push(LoopAction::WriteTitle { title: same_option(&taken.window_title) });
        acts.push(LoopAction::SetPrefixInput { active: taken.prefix_input_source_active });
        acts.push(LoopAction::FullRedraw);
        acts.push(LoopAction::ReportSize);
        assert(acts@ =~= old(acts)@ + parts);
        if same_text(taken.member_id.as_str(), self.home_member_id.as_str()) {
            self.home_connection_id = connection_id;
        }
        taken.server_id = Some(server_id);
        taken.session_id = Some(session_id);
        let mut previous = taken;
        std::mem::swap(&mut self.active, &mut previous);
        if retained {
            self.suspended.push(previous);
        }
        let ghost all = self.buffered@;
        let ghost base = acts@;
        let mut waiting_messages: Vec<SessionMessage> = Vec::new();
        std::mem::swap(&mut self.buffered, &mut waiting_messages);
        self.requeue(waiting_messages, connection_id, acts);
        self.pending = None;
        self.connecting = None;
        self.waiting = Waiting::Nothing;
        assert(self@ =~= model.state);
        assert(acts@ =~= old(acts)@ + model.actions);
        None
    }

    fn requeue(&self, messages: Vec<SessionMessage>, connection_id: u64, acts: &mut Vec<LoopAction>)
        ensures
            final(acts)@ == old(acts)@ + Seq::new(
                messages@.len(),
                |i: int| LoopAction::Requeue { connection_id, message: messages@[i] },
            ),
    {
        let ghost all = messages@;
        let mut rest = messages;
        let mut turned: Vec<SessionMessage> = Vec::new();
        while rest.len() > 0
            invariant
                rest@.len() + turned@.len() == all.len(),
                rest@ == all.take(rest@.len() as int),
                forall|i: int|
                    0 <= i < turned@.len() ==> #[trigger] turned@[i] == all[all.len() - 1 - i],
            decreases rest@.len(),
        {
            match rest.pop() {
                Some(message) => turned.push(message),
                None => {},
            }
        }
        while turned.len() > 0
            invariant
                turned@.len() <= all.len(),
                forall|i: int|
                    0 <= i < turned@.len() ==> #[trigger] turned@[i] == all[all.len() - 1 - i],
                acts@ == old(acts)@ + Seq::new(
                    (all.len() - turned@.len()) as nat,
                    |i: int| LoopAction::Requeue { connection_id, message: all[i] },
                ),
            decreases turned@.len(),
        {
            let ghost before = turned@;
            let ghost given = acts@;
            match turned.pop() {
                Some(message) => {
                    acts.push(LoopAction::Requeue { connection_id, message });
                    proof {
                        let n = (all.len() - before.len()) as int;
                        assert(message == before[before.len() - 1]);
                        assert(message == all[n]);
                        assert(acts@ =~= old(acts)@ + Seq::new(
                            (n + 1) as nat,
                            |i: int| LoopAction::Requeue { connection_id, message: all[i] },
                        ));
                    }
                },
                None => {},
            }
        }
    }

    fn acknowledged(
        &mut self,
        pending: PendingActivation,
        accepted: bool,
        member_id: String,
        server_id: String,
        session_id: String,
        error: Option<String>,
        acts: &mut Vec<LoopAction>,
    ) -> (r: Option<LoopEnd>)
        requires
            old(self)@.pending is None,
        ensures
            carried_out(
                Loop { pending: Some(pending), ..old(self)@ }.acknowledged(
                    pending,
                    accepted,
                    member_id,
                    server_id,
                    session_id,
                    error,
                ),
                final(self)@,
                old(acts)@,
                final(acts)@,
                r,
            ),
    {
        let matches = federation_activation_identity_matches(
            pending.endpoint_id.as_str(),
            &pending.expected_resource,
            &pending.expected_runtime_identity,
            member_id.as_str(),
            server_id.as_str(),
            session_id.as_str(),
        );
        if accepted && matches {
            if pending.retain_current {
                acts.push(LoopAction::AskSuspend { connection_id: self.active.connection_id });
                self.waiting = Waiting::Suspend { pending, server_id, session_id };
                assert(acts@ =~= old(acts)@ + seq![
                    LoopAction::AskSuspend { connection_id: old(self)@.active.connection_id },
                ]);
                None
            } else {
                self.commit(pending, server_id, session_id, false, acts)
            }
        } else {
            let keep = pending.restore_if_rejected && same_text(
                member_id.as_str(),
                pending.endpoint_id.as_str(),
            );
            let detail = match error {
                Some(text) => Rejection::Given(text),
                None => Rejection::Identity { member_id, server_id, session_id },
            };
            let toast = Toast::ActivationRejected {
                endpoint_id: Some(pending.endpoint_id.clone()),
                detail,
            };
            self.abandon(pending, true, keep, toast, acts)
        }
    }

    fn identified(
        &mut self,
        connection_id: u64,
        member_id: String,
        server_id: String,
        session_id: String,
        now: u64,
    )
        requires
            now + FEDERATION_ACTIVATION_TIMEOUT_MS <= u64::MAX,
        ensures
            quiet(final(self)@) == old(self)@.identified(
                connection_id,
                member_id,
                server_id,
                session_id,
                now,
            ),
    {
        if self.home_candidate_id == Some(connection_id) {
            let mut known = false;
            let mut i: usize = 0;
            let ghost before = self@;
            while i < self.suspended.len()
                invariant
                    self@ == before,
                    i <= self.suspended@.len(),
                    known == exists|k: int|
                        0 <= k < i && (#[trigger] before.suspended[k]).connection_id
                            == connection_id && home_identity_matches(
                            before.suspended[k].member_id@,
                            before.suspended[k].server_id,
                            before.suspended[k].session_id,
                            before.home_member_id@,
                            member_id@,
                            server_id@,
                            session_id@,
                        ),
                decreases self.suspended@.len() - i,
            {
                let ghost was = known;
                if self.suspended[i].connection_id == connection_id
                    && directory_authority_identity_matches(
                    self.suspended[i].member_id.as_str(),
                    &self.suspended[i].server_id,
                    &self.suspended[i].session_id,
                    self.home_member_id.as_str(),
                    member_id.as_str(),
                    server_id.as_str(),
                    session_id.as_str(),
                ) {
                    known = true;
                    assert(before.suspended[i as int].connection_id == connection_id);
                }
                i += 1;
            }
            self.home_candidate_id = None;
            if known {
                self.home_connection_id = connection_id;
                self.take_disconnected(connection_id);
                self.home_retry_at = None;
            } else {
                self.disconnected.insert(connection_id);
                self.home_retry_at = Some(now + DIRECTORY_AUTHORITY_RECONNECT_MS);
            }
            assert(self@ =~= before.identified(
                connection_id,
                member_id,
                server_id,
                session_id,
                now,
            ).state);
            return;
        }
        if connection_id == self.home_connection_id {
            if connection_id == self.active.connection_id {
                self.active.member_id = member_id.clone();
                self.active.server_id = Some(server_id);
                self.active.session_id = Some(session_id);
            }
            self.home_member_id = member_id;
        }
    }

    fn directory_came(
        &mut self,
        connection_id: u64,
        incoming: &Vec<EndpointState>,
        acts: &mut Vec<LoopAction>,
    )
        ensures
            carried_out(
                old(self)@.directory_came(connection_id, endpoints(incoming@)),
                final(self)@,
                old(acts)@,
                final(acts)@,
                None,
            ),
    {
        if connection_id == self.home_connection_id {
            merge_federation_directory(&mut self.directory, incoming);
            if self.active.connection_id != self.home_connection_id {
                acts.push(LoopAction::SendDirectory);
            }
            acts.push(LoopAction::FullRedraw);
        }
        assert(acts@ =~= old(acts)@ + old(self)@.directory_came(
            connection_id,
            endpoints(incoming@),
        ).actions);
    }

    fn shut_down(&mut self, reason: Option<String>, acts: &mut Vec<LoopAction>) -> (r: Option<
        LoopEnd,
    >)
        ensures
            carried_out(old(self)@.shut_down(reason), final(self)@, old(acts)@, final(acts)@, r),
    {
        if known_is(&reason, "detached") {
            self.waiting = Waiting::Nothing;
            assert(acts@ =~= acts@ + Seq::<LoopAction>::empty());
            Some(LoopEnd::Shutdown { reason })
        } else {
            self.lose_active(Fallback::Shutdown { reason }, acts)
        }
    }

    fn ask_switch(&mut self, switch: Switch, candidate: Connection, acts: &mut Vec<LoopAction>) -> (r:
        Option<LoopEnd>)
        ensures
            carried_out(
                old(self)@.ask_switch(switch, candidate),
                final(self)@,
                old(acts)@,
                final(acts)@,
                r,
            ),
    {
        let request_id = self.next_request_id;
        self.next_request_id = number_after(request_id);
        acts.push(
            LoopAction::Activate {
                connection_id: candidate.connection_id,
                request_id,
                member_id: switch.endpoint_id.clone(),
                resource: copy_resource(&switch.resource),
                presentation: true,
            },
        );
        self.waiting = Waiting::SwitchActivate { switch, candidate, request_id };
        assert(acts@ =~= old(acts)@ + old(self)@.ask_switch(switch, candidate).actions);
        None
    }

    fn switch_failed(
        &mut self,
        endpoint_id: String,
        error: String,
        lost: Option<u64>,
        acts: &mut Vec<LoopAction>,
    )
        ensures
            carried_out(
                old(self)@.switch_failed(endpoint_id, error, lost),
                final(self)@,
                old(acts)@,
                final(acts)@,
                None,
            ),
    {
        self.clear_connecting_ui(true, acts);
        if let Some(connection_id) = lost {
            acts.push(LoopAction::Drop { connection_id });
        }
        acts.push(LoopAction::ShowToast(Toast::CouldNotOpen { endpoint_id, error }));
        self.waiting = Waiting::Nothing;
        assert(acts@ =~= old(acts)@ + old(self)@.switch_failed(endpoint_id, error, lost).actions);
    }

    fn switch_to(
        &mut self,
        endpoint_id: String,
        resource: Option<FederatedResourceRef>,
        acts: &mut Vec<LoopAction>,
    ) -> (r: Option<LoopEnd>)
        ensures
            carried_out(
                old(self)@.switch_to(endpoint_id, resource),
                final(self)@,
                old(acts)@,
                final(acts)@,
                r,
            ),
    {
        let ghost model = old(self)@.switch_to(endpoint_id, resource);
        let at = find_state(&self.directory, endpoint_id.as_str());
        if at == self.directory.len() {
            acts.push(LoopAction::ShowToast(Toast::Untrusted));
            assert(acts@ =~= old(acts)@ + model.actions);
            return None;
        }
        let member = &self.directory[at];
        assert(self@.directory[at as int] == member@);
        let identity = match federated_endpoint_runtime_identity(member) {
            Some(identity) => identity,
            None => {
                acts.push(LoopAction::ShowToast(Toast::Unavailable));
                assert(acts@ =~= old(acts)@ + model.actions);
                return None;
            },
        };
        if let Some(named) = &resource {
            if !(same_text(named.endpoint_id.as_str(), endpoint_id.as_str()) && same_text(
                identity.0.as_str(),
                named.server_id.as_str(),
            ) && same_text(identity.1.as_str(), named.session_id.as_str())) {
                acts.push(LoopAction::ShowToast(Toast::Stale));
                assert(acts@ =~= old(acts)@ + model.actions);
                return None;
            }
        }
        if self.pending.is_some() {
            acts.push(LoopAction::ShowToast(Toast::InProgress));
            assert(acts@ =~= old(acts)@ + model.actions);
            return None;
        }
        let plan = federation_connection_plan(
            self.active.member_id.as_str(),
            &self.suspended,
            endpoint_id.as_str(),
        );
        match plan {
            FederationConnectionPlan::Current => {
                let request_id = self.next_request_id;
                self.next_request_id = number_after(request_id);
                acts.push(
                    LoopAction::Activate {
                        connection_id: self.active.connection_id,
                        request_id,
                        member_id: endpoint_id,
                        resource,
                        presentation: true,
                    },
                );
                self.waiting = Waiting::CurrentActivate;
                assert(acts@ =~= old(acts)@ + model.actions);
                None
            },
            FederationConnectionPlan::Suspended(index) => {
                proof {
                    crate::search::lemma_first_hit(
                        self.suspended@,
                        member_is(endpoint_id@),
                        0,
                    );
                }
                self.connecting = None;
                acts.push(LoopAction::DrawConnecting);
                let candidate = self.suspended.remove(index);
                let switch = Switch { endpoint_id, resource, identity, reused: true };
                let ghost rest = Loop {
                    connecting: None,
                    suspended: old(self)@.suspended.remove(index as int),
                    disconnected: old(self)@.disconnected.remove(candidate.connection_id),
                    ..old(self)@
                };
                if self.take_disconnected(candidate.connection_id) {
                    assert(self@ =~= rest);
                    acts.push(
                        LoopAction::Reconnect {
                            from: candidate.connection_id,
                            to: self.next_connection_id,
                        },
                    );
                    self.waiting = Waiting::SwitchReconnect { switch, candidate };
                    assert(acts@ =~= old(acts)@ + model.actions);
                    None
                } else {
                    assert(self@ =~= rest);
                    let r = self.ask_switch(switch, candidate, acts);
                    assert(acts@ =~= old(acts)@ + model.actions);
                    r
                }
            },
            FederationConnectionPlan::New => {
                let label = match &member.endpoint.label {
                    Some(label) => label.clone(),
                    None => endpoint_id.clone(),
                };
                let target = member.endpoint.target.clone();
                let session = member.endpoint.session.clone();
                self.connecting = FederationConnectingUi::for_plan(plan, &label);
                acts.push(LoopAction::DrawConnecting);
                acts.push(LoopAction::StartRemote { target, session, to: self.next_connection_id });
                let switch = Switch { endpoint_id, resource, identity, reused: false };
                self.waiting = Waiting::SwitchStart { switch };
                assert(self@ =~= model.state);
                assert(acts@ =~= old(acts)@ + model.actions);
                None
            },
        }
    }

    fn session_came(&mut self, message: SessionMessage, acts: &mut Vec<LoopAction>)
        ensures
            carried_out(
                old(self)@.session_came(message),
                final(self)@,
                old(acts)@,
                final(acts)@,
                None,
            ),
    {
        let ghost model = old(self)@.session_came(message);
        match message {
            SessionMessage::MouseCapture { enabled } => {
                if enabled != self.active.mouse_capture_active {
                    self.active.mouse_capture_active = enabled;
                    acts.push(LoopAction::SetMouseCapture { enabled });
                }
            },
            SessionMessage::WindowTitle { title } => {
                self.active.window_title = same_option(&title);
                acts.push(LoopAction::WriteTitle { title });
            },
            SessionMessage::PrefixInputSource { active } => {
                self.active.prefix_input_source_active = active;
                acts.push(LoopAction::SetPrefixInput { active });
            },
            SessionMessage::ReloadSoundConfig => acts.push(LoopAction::ReloadConfig),
            SessionMessage::Clipboard { data } => acts.push(LoopAction::ForwardClipboard { data }),
            SessionMessage::Notify { kind, message, body } => acts.push(
                LoopAction::Notify { kind, message, body },
            ),
        }
        assert(acts@ =~= old(acts)@ + model.actions);
    }

    fn active_said(&mut self, message: ServerMessage, acts: &mut Vec<LoopAction>) -> (r: Option<
        LoopEnd,
    >)
        ensures
            carried_out(old(self)@.active_said(message), final(self)@, old(acts)@, final(acts)@, r),
    {
        let ghost model = old(self)@.active_said(message);
        match message {
            ServerMessage::Frame => acts.push(LoopAction::ShowFrame),
            ServerMessage::Terminal => acts.push(
                LoopAction::ShowTerminal { track_graphics: self.kitty_graphics_enabled },
            ),
            ServerMessage::Graphics => {
                if self.kitty_graphics_enabled {
                    acts.push(LoopAction::ShowGraphics);
                }
            },
            ServerMessage::Shutdown { reason } => {
                if known_is(&reason, self.handoff_reason.as_str()) {
                    acts.push(
                        LoopAction::Handoff {
                            remote: self.active.remote,
                            to: self.next_connection_id,
                        },
                    );
                    self.waiting = Waiting::Handoff { reason };
                } else {
                    return self.shut_down(reason, acts);
                }
            },
            ServerMessage::Session(said) => {
                self.session_came(said, acts);
            },
            ServerMessage::Attach { endpoint_id, resource, directory } => {
                if self.active.connection_id == self.home_connection_id {
                    merge_federation_directory(&mut self.directory, &directory);
                }
                return self.switch_to(endpoint_id, resource, acts);
            },
            ServerMessage::ActivationResult { accepted, member_id, error, .. } => {
                if !accepted {
                    let detail = match error {
                        Some(text) => Rejection::Given(text),
                        None => Rejection::Member { member_id },
                    };
                    acts.push(
                        LoopAction::ShowToast(
                            Toast::ActivationRejected { endpoint_id: None, detail },
                        ),
                    );
                }
            },
            _ => {},
        }
        assert(acts@ =~= old(acts)@ + model.actions);
        None
    }

    fn routed(&mut self, connection_id: u64, message: ServerMessage, acts: &mut Vec<LoopAction>) -> (r:
        Option<LoopEnd>)
        ensures
            carried_out(
                old(self)@.routed(connection_id, message),
                final(self)@,
                old(acts)@,
                final(acts)@,
                r,
            ),
    {
        let is_pending = match &self.pending {
            Some(pending) => pending.connection.connection_id == connection_id,
            None => false,
        };
        if is_pending {
            if let ServerMessage::Session(said) = message {
                self.buffered.push(said);
            }
            assert(acts@ =~= acts@ + Seq::<LoopAction>::empty());
            return None;
        }
        if connection_id != self.active.connection_id {
            if let ServerMessage::Shutdown { .. } = message {
                self.disconnected.insert(connection_id);
            }
            assert(acts@ =~= acts@ + Seq::<LoopAction>::empty());
            return None;
        }
        self.active_said(message, acts)
    }

    fn said(
        &mut self,
        connection_id: u64,
        message: ServerMessage,
        now: u64,
        acts: &mut Vec<LoopAction>,
    ) -> (r: Option<LoopEnd>)
        requires
            now + FEDERATION_ACTIVATION_TIMEOUT_MS <= u64::MAX,
        ensures
            carried_out(
                old(self)@.said(connection_id, message, now),
                final(self)@,
                old(acts)@,
                final(acts)@,
                r,
            ),
    {
        match message {
            ServerMessage::DirectoryUpdate { directory } => {
                self.directory_came(connection_id, &directory, acts);
                None
            },
            ServerMessage::Identity { member_id, server_id, session_id } => {
                self.identified(connection_id, member_id, server_id, session_id, now);
                assert(acts@ =~= acts@ + Seq::<LoopAction>::empty());
                None
            },
            ServerMessage::ActivationResult {
                request_id,
                accepted,
                member_id,
                server_id,
                session_id,
                error,
            } => {
                let is_pending = match &self.pending {
                    Some(pending) => pending.connection.connection_id == connection_id
                        && pending.request_id == request_id,
                    None => false,
                };
                if is_pending {
                    if let Some(pending) = self.pending.take() {
                        assert(Loop { pending: Some(pending), ..self@ } =~= old(self)@);
                        return self.acknowledged(
                            pending,
                            accepted,
                            member_id,
                            server_id,
                            session_id,
                            error,
                            acts,
                        );
                    }
                }
                self.routed(
                    connection_id,
                    ServerMessage::ActivationResult {
                        request_id,
                        accepted,
                        member_id,
                        server_id,
                        session_id,
                        error,
                    },
                    acts,
                )
            },
            other => self.routed(connection_id, other, acts),
        }
    }

    fn broke_off(&mut self, connection_id: u64, now: u64, acts: &mut Vec<LoopAction>) -> (r: Option<
        LoopEnd,
    >)
        ensures
            carried_out(
                old(self)@.broke_off(connection_id, now),
                final(self)@,
                old(acts)@,
                final(acts)@,
                r,
            ),
    {
        let is_pending = match &self.pending {
            Some(pending) => pending.connection.connection_id == connection_id,
            None => false,
        };
        if is_pending {
            if let Some(pending) = self.pending.take() {
                return self.abandon(pending, false, false, Toast::PendingDisconnected, acts);
            }
        }
        if connection_id != self.active.connection_id {
            self.disconnected.insert(connection_id);
            if connection_id == self.home_connection_id || self.home_candidate_id == Some(
                connection_id,
            ) {
                self.home_candidate_id = None;
                self.home_retry_at = Some(now);
            }
            assert(acts@ =~= acts@ + Seq::<LoopAction>::empty());
            return None;
        }
        self.lose_active(Fallback::Closed, acts)
    }

    fn expire(&mut self, now: u64, acts: &mut Vec<LoopAction>) -> (r: Option<LoopEnd>)
        ensures
            carried_out(old(self)@.expire(now), final(self)@, old(acts)@, final(acts)@, r),
    {
        let is_over = match &self.pending {
            Some(pending) => now >= pending.deadline,
            None => false,
        };
        if is_over {
            if let Some(pending) = self.pending.take() {
                let keep = pending.restore_if_rejected;
                return self.abandon(pending, true, keep, Toast::PendingTimedOut, acts);
            }
        }
        assert(acts@ =~= acts@ + Seq::<LoopAction>::empty());
        None
    }

    fn ticked(&mut self, acts: &mut Vec<LoopAction>)
        ensures
            carried_out(old(self)@.ticked(), final(self)@, old(acts)@, final(acts)@, None),
    {
        if self.pending.is_some() {
            if let Some(connecting) = self.connecting.take() {
                let mut moved = connecting;
                moved.tick = number_after(moved.tick);
                self.connecting = Some(moved);
                acts.push(LoopAction::DrawConnecting);
            }
        }
        assert(self@ =~= old(self)@.ticked().state);
        assert(acts@ =~= old(acts)@ + old(self)@.ticked().actions);
    }

    fn time_passed(&mut self, now: u64, acts: &mut Vec<LoopAction>) -> (r: Option<LoopEnd>)
        ensures
            carried_out(old(self)@.time_passed(now), final(self)@, old(acts)@, final(acts)@, r),
    {
        let ghost ticked = old(self)@.ticked();
        let ghost model = old(self)@.time_passed(now);
        self.ticked(acts);
        let is_due = match self.home_retry_at {
            Some(at) => at <= now,
            None => false,
        };
        if self.active.connection_id != self.home_connection_id && self.home_candidate_id.is_none()
            && is_due {
            let at = find_member(&self.suspended, self.home_member_id.as_str());
            if at < self.suspended.len() {
                acts.push(
                    LoopAction::Reconnect {
                        from: self.suspended[at].connection_id,
                        to: self.next_connection_id,
                    },
                );
                self.waiting = Waiting::HomeReconnect { index: at };
                assert(acts@ =~= old(acts)@ + model.actions);
                return None;
            }
            self.home_retry_at = None;
        }
        let ghost state = self@;
        let r = self.expire(now, acts);
        assert(acts@ =~= old(acts)@ + (ticked.actions + state.expire(now).actions));
        r
    }

    fn successor_asked(
        &mut self,
        connection_id: u64,
        request_id: u64,
        deadline: u64,
        acts: &mut Vec<LoopAction>,
    )
        ensures
            carried_out(
                old(self)@.successor_asked(connection_id, request_id, deadline),
                final(self)@,
                old(acts)@,
                final(acts)@,
                None,
            ),
    {
        let ghost model = old(self)@.successor_asked(connection_id, request_id, deadline);
        if let Some(given_up) = &self.pending {
            acts.push(LoopAction::Drop { connection_id: given_up.connection.connection_id });
        }
        let mut connection = self.active.clone();
        connection.connection_id = connection_id;
        self.pending = Some(
            PendingActivation {
                connection,
                endpoint_id: self.active.member_id.clone(),
                expected_resource: None,
                expected_runtime_identity: both_known(
                    &self.active.server_id,
                    &self.active.session_id,
                ),
                request_id,
                retain_current: false,
                restore_if_rejected: false,
                deadline,
            },
        );
        self.active.remote = false;
        self.buffered = Vec::new();
        self.waiting = Waiting::Nothing;
        assert(self@ =~= model.state);
        assert(acts@ =~= old(acts)@ + model.actions);
    }

    fn home_dialled(&mut self, index: usize)
        ensures
            final(self)@ == old(self)@.home_dialled(index),
    {
        let new_id = self.next_connection_id;
        self.waiting = Waiting::Nothing;
        if index < self.suspended.len() {
            self.next_connection_id = number_after(new_id);
            let mut dialled = self.suspended[index].clone();
            dialled.connection_id = new_id;
            self.suspended.set(index, dialled);
            let home = self.home_connection_id;
            self.take_disconnected(home);
            self.home_candidate_id = Some(new_id);
            self.home_retry_at = None;
            assert(self@ =~= old(self)@.home_dialled(index));
        }
    }

    fn worked(&mut self, now: u64, acts: &mut Vec<LoopAction>) -> (r: Option<LoopEnd>)
        requires
            now + FEDERATION_ACTIVATION_TIMEOUT_MS <= u64::MAX,
        ensures
            carried_out(old(self)@.worked(now), final(self)@, old(acts)@, final(acts)@, r),
    {
        let ghost model = old(self)@.worked(now);
        let deadline: u64 = now + FEDERATION_ACTIVATION_TIMEOUT_MS;
        let new_id = self.next_connection_id;
        let mut waiting = Waiting::Nothing;
        std::mem::swap(&mut self.waiting, &mut waiting);
        match waiting {
            Waiting::Nothing => {
                assert(acts@ =~= acts@ + Seq::<LoopAction>::empty());
                None
            },
            Waiting::FallbackReconnect { candidate, why } => {
                self.next_connection_id = number_after(new_id);
                let mut dialled = candidate;
                dialled.connection_id = new_id;
                self.ask_fallback(dialled, why, acts)
            },
            Waiting::FallbackActivate { candidate, request_id, why } => self.fallback_asked(
                candidate,
                request_id,
                why,
                now,
                acts,
            ),
            Waiting::Suspend { pending, server_id, session_id } => self.commit(
                pending,
                server_id,
                session_id,
                true,
                acts,
            ),
            Waiting::Handoff { .. } => {
                self.next_connection_id = number_after(new_id);
                let request_id = self.next_request_id;
                self.next_request_id = number_after(request_id);
                acts.push(
                    LoopAction::Activate {
                        connection_id: new_id,
                        request_id,
                        member_id: self.active.member_id.clone(),
                        resource: None,
                        presentation: false,
                    },
                );
                self.waiting = Waiting::HandoffActivate { connection_id: new_id, request_id };
                assert(acts@ =~= old(acts)@ + model.actions);
                None
            },
            Waiting::HandoffActivate { connection_id, request_id } => {
                self.successor_asked(connection_id, request_id, deadline, acts);
                None
            },
            Waiting::CurrentActivate => {
                acts.push(LoopAction::FullRedraw);
                assert(acts@ =~= old(acts)@ + model.actions);
                None
            },
            Waiting::SwitchReconnect { switch, candidate } => {
                self.next_connection_id = number_after(new_id);
                let mut dialled = candidate;
                dialled.connection_id = new_id;
                self.ask_switch(switch, dialled, acts)
            },
            Waiting::SwitchStart { switch } => {
                self.next_connection_id = number_after(new_id);
                let candidate = Connection {
                    member_id: switch.endpoint_id.clone(),
                    server_id: Some(switch.identity.0.clone()),
                    session_id: Some(switch.identity.1.clone()),
                    connection_id: new_id,
                    remote: true,
                    mouse_capture_active: self.active.mouse_capture_active,
                    window_title: None,
                    prefix_input_source_active: false,
                    is_remote_client: true,
                };
                self.ask_switch(switch, candidate, acts)
            },
            Waiting::SwitchActivate { switch, candidate, request_id } => {
                self.pending = Some(
                    PendingActivation {
                        connection: candidate,
                        endpoint_id: switch.endpoint_id,
                        expected_resource: switch.resource,
                        expected_runtime_identity: Some(switch.identity),
                        request_id,
                        retain_current: true,
                        restore_if_rejected: switch.reused,
                        deadline,
                    },
                );
                self.buffered = Vec::new();
                assert(self@ =~= model.state);
                assert(acts@ =~= acts@ + Seq::<LoopAction>::empty());
                None
            },
            Waiting::HomeReconnect { index } => {
                self.home_dialled(index);
                self.expire(now, acts)
            },
        }
    }

    fn went_wrong(
        &mut self,
        error: ClientError,
        text: String,
        now: u64,
        acts: &mut Vec<LoopAction>,
    ) -> (r: Option<LoopEnd>)
        requires
            now + FEDERATION_ACTIVATION_TIMEOUT_MS <= u64::MAX,
        ensures
            carried_out(
                old(self)@.went_wrong(error, text, now),
                final(self)@,
                old(acts)@,
                final(acts)@,
                r,
            ),
    {
        let ghost model = old(self)@.went_wrong(error, text, now);
        let mut waiting = Waiting::Nothing;
        std::mem::swap(&mut self.waiting, &mut waiting);
        match waiting {
            Waiting::Nothing => {
                assert(acts@ =~= acts@ + Seq::<LoopAction>::empty());
                None
            },
            Waiting::FallbackReconnect { candidate, why } => {
                acts.push(LoopAction::Drop { connection_id: candidate.connection_id });
                let r = self.begin_suspended_fallback(why, acts);
                assert(acts@ =~= old(acts)@ + model.actions);
                r
            },
            Waiting::FallbackActivate { candidate, why, .. } => {
                acts.push(LoopAction::Drop { connection_id: candidate.connection_id });
                let r = self.begin_suspended_fallback(why, acts);
                assert(acts@ =~= old(acts)@ + model.actions);
                r
            },
            Waiting::Suspend { pending, server_id, session_id } => self.commit(
                pending,
                server_id,
                session_id,
                false,
                acts,
            ),
            Waiting::Handoff { reason } => {
                if self.suspended.len() > 0 {
                    acts.push(LoopAction::ShowToast(Toast::RemoteChanged));
                    let r = self.shut_down(reason, acts);
                    assert(acts@ =~= old(acts)@ + model.actions);
                    r
                } else {
                    assert(acts@ =~= acts@ + Seq::<LoopAction>::empty());
                    Some(LoopEnd::Failed(error))
                }
            },
            Waiting::HandoffActivate { .. } => {
                assert(acts@ =~= acts@ + Seq::<LoopAction>::empty());
                Some(LoopEnd::Lost(text))
            },
            Waiting::CurrentActivate => {
                assert(acts@ =~= acts@ + Seq::<LoopAction>::empty());
                Some(LoopEnd::Lost(text))
            },
            Waiting::SwitchReconnect { switch, candidate } => {
                self.switch_failed(switch.endpoint_id, text, Some(candidate.connection_id), acts);
                acts.push(LoopAction::FullRedraw);
                assert(acts@ =~= old(acts)@ + model.actions);
                None
            },
            Waiting::SwitchStart { switch } => {
                self.switch_failed(switch.endpoint_id, text, None, acts);
                acts.push(LoopAction::FullRedraw);
                assert(acts@ =~= old(acts)@ + model.actions);
                None
            },
            Waiting::SwitchActivate { switch, candidate, .. } => {
                self.switch_failed(switch.endpoint_id, text, Some(candidate.connection_id), acts);
                None
            },
            Waiting::HomeReconnect { .. } => {
                self.home_retry_at = Some(now + DIRECTORY_AUTHORITY_RECONNECT_MS);
                self.expire(now, acts)
            },
        }
    }

    /// Takes an event and says what it leads to. Where the client waits for an outcome, only the
    /// outcome is an event.
    pub fn step(&mut self, event: LoopEvent, now: u64) -> (r: (Vec<LoopAction>, Option<LoopEnd>))
        requires
            now + FEDERATION_ACTIVATION_TIMEOUT_MS <= u64::MAX,
            (event is Done || event is Failed) == !(old(self)@.waiting is Nothing),
        ensures
            ({
                let outcome = old(self)@.stepped(event, now);
                &&& final(self)@ == outcome.state
                &&& r.0@ == outcome.actions
                &&& r.1 == outcome.end
            }),
    {
        let ghost model = old(self)@.stepped(event, now);
        let mut acts: Vec<LoopAction> = Vec::new();
        let end = match event {
            LoopEvent::Quit => {
                acts.push(LoopAction::SendDetach);
                Some(LoopEnd::Exit)
            },
            LoopEvent::Resize { cols, rows, cell_width_px, cell_height_px } => {
                self.reported_size = (cols, rows);
                acts.push(LoopAction::SendResize { cols, rows, cell_width_px, cell_height_px });
                None
            },
            LoopEvent::WriteFailed { error } => self.lose_active(
                Fallback::WriteFailed { error },
                &mut acts,
            ),
            LoopEvent::Message { connection_id, message } => self.said(
                connection_id,
                message,
                now,
                &mut acts,
            ),
            LoopEvent::Disconnected { connection_id } => self.broke_off(
                connection_id,
                now,
                &mut acts,
            ),
            LoopEvent::Timer => self.time_passed(now, &mut acts),
            LoopEvent::Done => self.worked(now, &mut acts),
            LoopEvent::Failed { error, text } => self.went_wrong(error, text, now, &mut acts),
        };
        assert(acts@ =~= model.actions);
        (acts, end)
    }
}

/// How the loop's end counts for the client.
pub fn loop_result(end: LoopEnd) -> (r: Result<(), ClientError>)
    ensures
        match end {
            LoopEnd::Exit => r is Ok,
            LoopEnd::NoneHealthy => r matches Err(ClientError::ConnectionLost(text)) && text@
                == "no healthy suspended Herdr connection remains"@,
            LoopEnd::Closed => r matches Err(ClientError::ConnectionLost(text)) && text@
                == "server closed connection"@,
            LoopEnd::Lost(text) => r == Err::<(), ClientError>(ClientError::ConnectionLost(text)),
            LoopEnd::Shutdown { reason } => r == Err::<(), ClientError>(
                ClientError::ServerShutdown { reason },
            ),
            LoopEnd::Failed(error) => r == Err::<(), ClientError>(error),
        },
{
    match end {
        LoopEnd::Exit => Ok(()),
        LoopEnd::NoneHealthy => Err(
            ClientError::ConnectionLost("no healthy suspended Herdr connection remains".to_owned()),
        ),
        LoopEnd::Closed => Err(
            ClientError::ConnectionLost("server closed connection".to_owned()),
        ),
        LoopEnd::Lost(text) => Err(ClientError::ConnectionLost(text)),
        LoopEnd::Shutdown { reason } => Err(ClientError::ServerShutdown { reason }),
        LoopEnd::Failed(error) => Err(error),
    }
}

} // verus!
