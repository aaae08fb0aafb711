//! The client's event loop: one terminal, several servers.

use herdr::client::error::ClientError;
use herdr::client::runtime::{directory_authority_identity_matches, loop_result};
use herdr::client::runtime::{federation_activation_identity_matches, federation_connection_plan};
use herdr::client::switching::{ClientLoop, FederationConnectionPlan, LoopAction, LoopEnd};
use herdr::client::switching::{LoopEvent, ServerMessage, SessionMessage, Toast, Waiting};
use herdr::federation::endpoint::{EndpointConnectionStatus, EndpointState};
use herdr::federation::endpoint::FederationEndpointConfig;
use herdr::schema::{RuntimeIdentity, SessionSnapshot};

const HOME: u64 = 1;

fn member(id: &str) -> EndpointState {
    EndpointState {
        endpoint: FederationEndpointConfig {
            id: id.into(),
            target: format!("{id}.example"),
            label: None,
            session: "default".into(),
            enabled: true,
        },
        status: EndpointConnectionStatus::Connected,
        snapshot: Some(SessionSnapshot {
            identity: RuntimeIdentity {
                server_id: format!("server-{id}"),
                session_id: format!("session-{id}"),
                session_name: "default".into(),
                member_id: id.into(),
                member_target: String::new(),
                member_label: None,
            },
            version: "0.1.0".into(),
            protocol: 1,
            event_cursor: 0,
            focused_workspace_id: None,
            focused_tab_id: None,
            focused_pane_id: None,
            workspaces: Vec::new(),
            tabs: Vec::new(),
            panes: Vec::new(),
            layouts: Vec::new(),
            agents: Vec::new(),
            archived_agents: Vec::new(),
        }),
        cursor: Some(0),
        error: None,
    }
}

fn client() -> ClientLoop {
    ClientLoop::new("home".into(), false, true, false, (80, 24), "live-handoff".into())
}

fn says(connection_id: u64, message: ServerMessage) -> LoopEvent {
    LoopEvent::Message { connection_id, message }
}

fn asks_for(endpoint_id: &str) -> LoopEvent {
    says(
        HOME,
        ServerMessage::Attach {
            endpoint_id: endpoint_id.into(),
            resource: None,
            directory: vec![member("home"), member("tana")],
        },
    )
}

fn accepts(connection_id: u64, request_id: u64, server_id: &str) -> LoopEvent {
    says(
        connection_id,
        ServerMessage::ActivationResult {
            request_id,
            accepted: true,
            member_id: "tana".into(),
            server_id: server_id.into(),
            session_id: "session-tana".into(),
            error: None,
        },
    )
}

/// A client that has asked `tana` to take over, and the number of the connection to it.
fn switching() -> (ClientLoop, u64, u64) {
    let mut client = client();
    let (actions, end) = client.step(asks_for("tana"), 0);
    assert_eq!(end, None);
    let to = actions
        .iter()
        .find_map(|action| match action {
            LoopAction::StartRemote { target, to, .. } => {
                assert_eq!(target, "tana.example");
                Some(*to)
            }
            _ => None,
        })
        .expect("the member is dialled");
    let (actions, _) = client.step(LoopEvent::Done, 10);
    let request_id = actions
        .iter()
        .find_map(|action| match action {
            LoopAction::Activate { connection_id, request_id, member_id, .. } => {
                assert_eq!(*connection_id, to);
                assert_eq!(member_id, "tana");
                Some(*request_id)
            }
            _ => None,
        })
        .expect("the member is asked");
    let (_, end) = client.step(LoopEvent::Done, 20);
    assert_eq!(end, None);
    assert!(client.pending.is_some());
    (client, to, request_id)
}

#[test]
fn a_member_takes_over_once_it_accepts() {
    let (mut client, to, request_id) = switching();
    assert_eq!(client.active.connection_id, HOME);
    let (actions, _) = client.step(accepts(to, request_id, "server-tana"), 30);
    assert!(actions.contains(&LoopAction::AskSuspend { connection_id: HOME }));
    let (actions, end) = client.step(LoopEvent::Done, 40);
    assert_eq!(end, None);
    assert!(actions.contains(&LoopAction::Promote { connection_id: to }));
    assert_eq!(client.active.connection_id, to);
    assert_eq!(client.active.member_id, "tana");
    assert_eq!(client.suspended.len(), 1);
    assert_eq!(client.connecting, None);
}

#[test]
fn a_member_with_another_identity_does_not_take_over() {
    let (mut client, to, request_id) = switching();
    let (actions, end) = client.step(accepts(to, request_id, "replacement"), 30);
    assert_eq!(end, None);
    assert_eq!(client.active.connection_id, HOME);
    assert!(client.pending.is_none());
    assert!(actions.iter().any(|action| matches!(
        action,
        LoopAction::ShowToast(Toast::ActivationRejected { .. })
    )));
}

#[test]
fn a_switch_that_takes_too_long_is_given_up() {
    let (mut client, _, _) = switching();
    let (_, end) = client.step(LoopEvent::Timer, 1_000);
    assert_eq!(end, None);
    assert!(client.pending.is_some());
    let (actions, end) = client.step(LoopEvent::Timer, 60_000);
    assert_eq!(end, None);
    assert!(client.pending.is_none());
    assert_eq!(client.active.connection_id, HOME);
    assert!(actions.contains(&LoopAction::ShowToast(Toast::PendingTimedOut)));
}

#[test]
fn early_messages_are_taken_up_in_order() {
    let (mut client, to, request_id) = switching();
    let early = |title: &str| SessionMessage::WindowTitle { title: Some(title.into()) };
    client.step(says(to, ServerMessage::Session(early("one"))), 21);
    client.step(says(to, ServerMessage::Session(early("two"))), 22);
    client.step(accepts(to, request_id, "server-tana"), 30);
    let (actions, _) = client.step(LoopEvent::Done, 40);
    let requeued: Vec<&LoopAction> =
        actions.iter().filter(|action| matches!(action, LoopAction::Requeue { .. })).collect();
    assert_eq!(
        requeued,
        vec![
            &LoopAction::Requeue { connection_id: to, message: early("one") },
            &LoopAction::Requeue { connection_id: to, message: early("two") },
        ]
    );
}

#[test]
fn a_member_that_cannot_be_dialled_is_reported() {
    let mut client = client();
    client.step(asks_for("tana"), 0);
    assert!(client.connecting.is_some());
    let failed = LoopEvent::Failed {
        error: ClientError::ConnectionFailed("refused".into()),
        text: "refused".into(),
    };
    let (actions, end) = client.step(failed, 5);
    assert_eq!(end, None);
    assert_eq!(client.connecting, None);
    assert_eq!(client.waiting, Waiting::Nothing);
    assert!(actions.contains(&LoopAction::ShowToast(Toast::CouldNotOpen {
        endpoint_id: "tana".into(),
        error: "refused".into(),
    })));
}

#[test]
fn an_unlisted_member_is_not_dialled() {
    let mut client = client();
    let (actions, end) = client.step(asks_for("stranger"), 0);
    assert_eq!(end, None);
    assert_eq!(client.waiting, Waiting::Nothing);
    assert!(actions.iter().all(|action| !matches!(action, LoopAction::StartRemote { .. })));
    assert!(actions.iter().any(|action| matches!(action, LoopAction::ShowToast(_))));
}

#[test]
fn strangers_are_not_heard() {
    let mut client = client();
    let update = ServerMessage::DirectoryUpdate { directory: vec![member("evil")] };
    let (actions, end) = client.step(says(9, update), 0);
    assert!(actions.is_empty());
    assert_eq!(end, None);
    assert!(client.directory.is_empty());
    let (actions, _) = client.step(says(9, ServerMessage::Frame), 0);
    assert!(actions.is_empty());
    let (actions, _) = client.step(says(HOME, ServerMessage::Frame), 0);
    assert_eq!(actions, vec![LoopAction::ShowFrame]);
}

#[test]
fn losing_a_member_falls_back_to_a_suspended_server() {
    let (mut client, to, request_id) = switching();
    client.step(accepts(to, request_id, "server-tana"), 30);
    client.step(LoopEvent::Done, 40);
    let (actions, end) = client.step(LoopEvent::Disconnected { connection_id: to }, 50);
    assert_eq!(end, None);
    assert!(actions.iter().any(|action| matches!(
        action,
        LoopAction::Activate { connection_id: HOME, .. }
    )));
}

#[test]
fn losing_the_only_server_ends_the_client() {
    let mut client = client();
    let (_, end) = client.step(LoopEvent::Disconnected { connection_id: HOME }, 0);
    assert_eq!(end, Some(LoopEnd::Closed));
    assert!(matches!(loop_result(LoopEnd::Closed), Err(ClientError::ConnectionLost(_))));
    assert_eq!(loop_result(LoopEnd::Exit), Ok(()));
    let shutdown = LoopEnd::Shutdown { reason: Some("maintenance".into()) };
    assert_eq!(
        loop_result(shutdown),
        Err(ClientError::ServerShutdown { reason: Some("maintenance".into()) })
    );
}

#[test]
fn a_successor_is_dialled_on_a_handoff() {
    let mut client = client();
    let bye = ServerMessage::Shutdown { reason: Some("live-handoff".into()) };
    let (actions, end) = client.step(says(HOME, bye), 0);
    assert_eq!(end, None);
    assert!(actions.iter().any(|action| matches!(
        action,
        LoopAction::Handoff { remote: false, .. }
    )));
}

#[test]
fn resizing_and_quitting_reach_the_server() {
    let mut client = client();
    let resize = LoopEvent::Resize { cols: 100, rows: 30, cell_width_px: 8, cell_height_px: 16 };
    let (actions, _) = client.step(resize, 0);
    assert_eq!(
        actions,
        vec![LoopAction::SendResize {
            cols: 100,
            rows: 30,
            cell_width_px: 8,
            cell_height_px: 16
        }]
    );
    let (actions, end) = client.step(LoopEvent::Quit, 0);
    assert_eq!(actions, vec![LoopAction::SendDetach]);
    assert_eq!(end, Some(LoopEnd::Exit));
}

#[test]
fn known_connections_are_used_again() {
    let mut client = client();
    assert_eq!(
        federation_connection_plan("home", &client.suspended, "home"),
        FederationConnectionPlan::Current
    );
    assert_eq!(
        federation_connection_plan("home", &client.suspended, "tana"),
        FederationConnectionPlan::New
    );
    let home = client.active.clone();
    client.suspended.push(home);
    assert_eq!(
        federation_connection_plan("tana", &client.suspended, "home"),
        FederationConnectionPlan::Suspended(0)
    );
}

#[test]
fn live_handoff_activation_requires_runtime_identity_continuity() {
    let expected = Some(("server-stl".to_string(), "session-stl".to_string()));
    assert!(federation_activation_identity_matches(
        "stl-agents-1",
        &None,
        &expected,
        "stl-agents-1",
        "server-stl",
        "session-stl",
    ));
    assert!(!federation_activation_identity_matches(
        "stl-agents-1",
        &None,
        &expected,
        "stl-agents-1",
        "replacement-server",
        "session-stl",
    ));
    assert!(!federation_activation_identity_matches(
        "stl-agents-1",
        &None,
        &expected,
        "stl-agents-1",
        "server-stl",
        "replacement-session",
    ));
}

#[test]
fn home_directory_authority_reconnect_requires_full_identity_continuity() {
    let some = |text: &str| Some(text.to_string());
    assert!(directory_authority_identity_matches(
        "x1",
        &some("server-x1"),
        &some("session-x1"),
        "x1",
        "x1",
        "server-x1",
        "session-x1",
    ));
    assert!(!directory_authority_identity_matches(
        "x1",
        &some("replacement-server"),
        &some("session-x1"),
        "x1",
        "x1",
        "server-x1",
        "session-x1",
    ));
    assert!(!directory_authority_identity_matches(
        "x1",
        &some("server-x1"),
        &some("session-x1"),
        "x1",
        "hostile",
        "server-x1",
        "session-x1",
    ));
}
