//! Endpoints, their projections and their watches.

use herdr::federation::bridge::{accept_watch, check_local_server, publish_step, request_error};
use herdr::federation::bridge::{watch_request_id, watched_endpoints, BridgeFailure, Handing};
use herdr::federation::bridge::{LocalStatus, PublishStep, WatchReply};
use herdr::federation::endpoint::{classify_error, configured_states, endpoint_stream_error};
use herdr::federation::endpoint::{remote_bridge_command, ssh_bridge_args, stream_end};
use herdr::federation::endpoint::{endpoint_diagnostics, validate_endpoint};
use herdr::federation::endpoint::validate_snapshot_member;
use herdr::federation::endpoint::{EndpointConnectionStatus, EndpointState, FederatedResourceKind};
use herdr::federation::endpoint::{FederationConfig, FederationEndpointConfig};
use herdr::federation::projection::{agent_info_from_pane, apply_event, reconcile_snapshot_agents};
use herdr::federation::watch::{EndpointWatch, WatchAction, WatchEvent};
use herdr::schema::{AgentStatus, EventData, Label, PaneInfo, RuntimeIdentity};
use herdr::schema::{SequencedEventEnvelope, SessionSnapshot, TabInfo, WorkspaceInfo};
use std::sync::Arc;

fn endpoint(id: &str, target: &str) -> FederationEndpointConfig {
    FederationEndpointConfig {
        id: id.into(),
        target: target.into(),
        label: None,
        session: "default".into(),
        enabled: true,
    }
}

fn identity(member_id: &str) -> RuntimeIdentity {
    RuntimeIdentity {
        server_id: "server".into(),
        session_id: "session".into(),
        session_name: "default".into(),
        member_id: member_id.into(),
        member_target: String::new(),
        member_label: None,
    }
}

fn snapshot(member_id: &str) -> SessionSnapshot {
    SessionSnapshot {
        identity: identity(member_id),
        version: "0.1.0".into(),
        protocol: 1,
        event_cursor: 0,
        focused_workspace_id: None,
        focused_tab_id: None,
        focused_pane_id: None,
        workspaces: Vec::new(),
        tabs: Vec::new(),
        panes: Vec::new(),
        layouts: Vec::new(),
        agents: Vec::new(),
        archived_agents: Vec::new(),
    }
}

fn pane() -> PaneInfo {
    PaneInfo {
        pane_id: "w3:p1".into(),
        terminal_id: "terminal-1".into(),
        workspace_id: "w3".into(),
        tab_id: "w3:t1".into(),
        focused: false,
        cwd: Some("/srv/project".into()),
        foreground_cwd: None,
        label: None,
        agent: Some("codex".into()),
        title: Some("implementation".into()),
        terminal_title: None,
        terminal_title_stripped: None,
        display_agent: Some("Codex".into()),
        agent_status: AgentStatus::Idle,
        state_labels: Arc::new(Vec::new()),
        tokens: Arc::new(Vec::new()),
        agent_session: None,
        scroll: None,
        revision: 4,
    }
}

fn workspace() -> WorkspaceInfo {
    WorkspaceInfo {
        workspace_id: "w3".into(),
        number: 3,
        label: "project".into(),
        focused: false,
        pane_count: 1,
        tab_count: 1,
        active_tab_id: "w3:t1".into(),
        agent_status: AgentStatus::Idle,
        terminal_launcher_argv: None,
        tokens: Arc::new(Vec::new()),
        worktree: None,
        project: None,
        branch: None,
        git_ahead_behind: None,
    }
}

fn tab() -> TabInfo {
    TabInfo {
        tab_id: "w3:t1".into(),
        workspace_id: "w3".into(),
        number: 1,
        label: "main".into(),
        focused: false,
        pane_count: 1,
        agent_status: AgentStatus::Idle,
    }
}

fn populated() -> SessionSnapshot {
    SessionSnapshot {
        workspaces: vec![workspace()],
        tabs: vec![tab()],
        panes: vec![pane()],
        agents: vec![agent_info_from_pane(&pane())],
        ..snapshot("local")
    }
}

fn happens(snapshot: &mut SessionSnapshot, cursor: u64, event: EventData) {
    apply_event(snapshot, &SequencedEventEnvelope { cursor, event });
}

#[test]
fn remote_bridge_command_contains_only_validated_session_data() {
    let command = remote_bridge_command("work-1");
    assert!(command.contains("herdr --session work-1 federation bridge"));
    assert!(command.contains("$HOME/.local/bin/herdr"));
}

#[test]
fn ssh_bridge_disables_connection_multiplexing() {
    let args = ssh_bridge_args(&endpoint("tana", "tana.tail.example"));
    assert!(args.windows(2).any(|pair| pair == ["-o", "ControlMaster=no"]));
    assert!(args.windows(2).any(|pair| pair == ["-o", "ControlPath=none"]));
}

#[test]
fn endpoint_validation_rejects_option_like_ssh_targets() {
    let bad = endpoint("bad", "-ProxyCommand=oops");
    let refusal = validate_endpoint(&endpoint_diagnostics(&bad)).unwrap_err();
    assert!(refusal.contains("-ProxyCommand=oops"));
    let good = endpoint("tana", "tana.tail.example");
    assert_eq!(validate_endpoint(&endpoint_diagnostics(&good)), Ok(()));
}

#[test]
fn endpoint_diagnostics_name_every_fault() {
    let bad = FederationEndpointConfig { session: "a b".into(), ..endpoint("x", "") };
    assert_eq!(
        endpoint_diagnostics(&bad),
        vec![
            "federation endpoint x: invalid ssh target ".to_string(),
            "federation endpoint x: invalid session a b".to_string(),
        ]
    );
    assert_eq!(
        endpoint_diagnostics(&endpoint("", "host")),
        vec!["federation endpoint has no id".to_string()]
    );
}

#[test]
fn endpoint_snapshot_must_report_the_configured_member() {
    let configured = endpoint("stl-agents-1", "");
    let error = validate_snapshot_member(&configured, &snapshot("local")).unwrap_err();
    assert!(error.contains("reported federation member local"));
    assert_eq!(validate_snapshot_member(&configured, &snapshot("stl-agents-1")), Ok(()));
}

#[test]
fn watched_pane_events_keep_inactive_agent_projection_live() {
    let mut snapshot = populated();
    happens(
        &mut snapshot,
        1,
        EventData::PaneAgentStatusChanged {
            pane_id: "w3:p1".into(),
            agent_status: AgentStatus::Blocked,
            agent: Some("codex".into()),
            title: Some("needs input".into()),
            display_agent: Some("Codex".into()),
            state_labels: Arc::new(vec![Label {
                key: "summary".into(),
                value: "Waiting for review".into(),
            }]),
        },
    );

    assert_eq!(snapshot.agents[0].agent_status, AgentStatus::Blocked);
    assert_eq!(snapshot.agents[0].title.as_deref(), Some("needs input"));
    assert_eq!(
        snapshot.agents[0]
            .state_labels
            .iter()
            .find(|label| label.key == "summary")
            .map(|label| label.value.as_str()),
        Some("Waiting for review")
    );
    assert_eq!(snapshot.tabs[0].agent_status, AgentStatus::Blocked);
    assert_eq!(snapshot.workspaces[0].agent_status, AgentStatus::Blocked);

    happens(&mut snapshot, 2, EventData::PaneClosed { pane_id: "w3:p1".into() });
    assert!(snapshot.agents.is_empty());
    assert_eq!(snapshot.tabs[0].agent_status, AgentStatus::Unknown);
    assert_eq!(snapshot.workspaces[0].agent_status, AgentStatus::Unknown);
}

#[test]
fn closing_a_workspace_leaves_nothing_of_it() {
    let mut snapshot = populated();
    happens(&mut snapshot, 7, EventData::WorkspaceClosed { workspace_id: "w3".into() });
    assert!(snapshot.workspaces.is_empty());
    assert!(snapshot.tabs.is_empty());
    assert!(snapshot.panes.is_empty());
    assert!(snapshot.agents.is_empty());
}

#[test]
fn telling_a_pane_twice_is_telling_it_once() {
    let mut once = populated();
    let mut twice = populated();
    let renamed = || PaneInfo { title: Some("review".into()), ..pane() };
    happens(&mut once, 2, EventData::PaneUpdated { pane: renamed() });
    happens(&mut twice, 1, EventData::PaneUpdated { pane: renamed() });
    happens(&mut twice, 2, EventData::PaneUpdated { pane: renamed() });
    assert_eq!(once, twice);
    assert_eq!(once.panes.len(), 1);
    assert_eq!(once.agents[0].title.as_deref(), Some("review"));
}

#[test]
fn renames_and_focus_are_followed() {
    let mut snapshot = populated();
    happens(
        &mut snapshot,
        1,
        EventData::WorkspaceRenamed { workspace_id: "w3".into(), label: "other".into() },
    );
    happens(&mut snapshot, 2, EventData::TabRenamed { tab_id: "w3:t1".into(), label: "t".into() });
    happens(&mut snapshot, 3, EventData::WorkspaceFocused { workspace_id: "w3".into() });
    assert_eq!(snapshot.workspaces[0].label, "other");
    assert_eq!(snapshot.tabs[0].label, "t");
    assert_eq!(snapshot.focused_workspace_id.as_deref(), Some("w3"));
    assert!(snapshot.workspaces[0].focused);
}

#[test]
fn agents_without_a_pane_are_dropped() {
    let mut snapshot = populated();
    snapshot.panes.clear();
    reconcile_snapshot_agents(&mut snapshot);
    assert!(snapshot.agents.is_empty());
}

#[test]
fn resources_are_named_through_a_snapshot() {
    let mut state = EndpointState::configured(endpoint("tana", "tana.example"));
    assert_eq!(state.status, EndpointConnectionStatus::Disconnected);
    assert_eq!(state.resource_ref(FederatedResourceKind::Pane, "w1:p1".into()), None);
    state.snapshot = Some(snapshot("tana"));
    let named = state.resource_ref(FederatedResourceKind::Pane, "w1:p1".into()).unwrap();
    assert_eq!(named.endpoint_id, "tana");
    assert_eq!(named.server_id, "server");
    assert_eq!(named.session_id, "session");
    assert_eq!(named.resource_id, "w1:p1");
    let off = EndpointState::configured(FederationEndpointConfig {
        enabled: false,
        ..endpoint("tana", "tana.example")
    });
    assert_eq!(off.status, EndpointConnectionStatus::Disabled);
}

#[test]
fn every_configured_endpoint_has_a_state() {
    let endpoints = vec![endpoint("a", "a.example"), endpoint("b", "b.example")];
    let on = FederationConfig { enabled: true, endpoints };
    assert_eq!(configured_states(&on).len(), 2);
    assert_eq!(watched_endpoints(&on).len(), 2);
}

#[test]
fn errors_are_classified() {
    assert_eq!(
        classify_error("server does not support federation session.watch"),
        EndpointConnectionStatus::Incompatible
    );
    assert_eq!(classify_error("connection refused"), EndpointConnectionStatus::Disconnected);
}

#[test]
fn stream_errors_carry_what_ssh_said() {
    let broken = endpoint_stream_error(&endpoint("tana", "t"), "reading", "eof", "no route");
    assert!(broken.contains("tana"));
    assert!(broken.contains("no route"));
    assert_eq!(stream_end(""), None);
    assert!(stream_end("permission denied").unwrap().contains("permission denied"));
}

#[test]
fn a_started_watch_needs_a_snapshot_of_the_member() {
    let tana = endpoint("tana", "tana.example");
    let reply = WatchReply::Started { cursor: 4, snapshot: Some(snapshot("tana")) };
    let state = accept_watch(&tana, reply).unwrap();
    assert_eq!(state.status, EndpointConnectionStatus::Connected);
    assert_eq!(state.cursor, Some(4));
    let reply = WatchReply::Started { cursor: 4, snapshot: Some(snapshot("hostile")) };
    assert!(accept_watch(&tana, reply).unwrap_err().contains("hostile"));
    assert!(accept_watch(&tana, WatchReply::Unexpected).is_err());
    assert!(watch_request_id(&tana).contains("tana"));
    let failure = BridgeFailure::TimedOut;
    assert!(request_error(&tana, &failure, "slow host").contains("slow host"));
}

#[test]
fn a_watch_request_that_was_not_written_is_told_as_it_is() {
    let tana = endpoint("tana", "tana.example");
    let unwritten = || BridgeFailure::NotAsked("broken pipe".into());
    let reply = WatchReply::Failed { failure: unwritten(), stderr: "noise".into() };
    assert_eq!(accept_watch(&tana, reply).unwrap_err(), "broken pipe");
    assert!(request_error(&tana, &unwritten(), "noise").contains("request failed"));
    let unread = BridgeFailure::Stream("broken pipe".into());
    let reply = WatchReply::Failed { failure: unread, stderr: "noise".into() };
    let told = accept_watch(&tana, reply).unwrap_err();
    assert!(told.contains("watch handshake failed") && told.contains("noise"));
}

#[test]
fn the_local_server_must_support_watching() {
    assert!(check_local_server(None).is_err());
    assert!(check_local_server(Some(LocalStatus { session_watch: Some(false) })).is_err());
    assert_eq!(check_local_server(Some(LocalStatus { session_watch: Some(true) })), Ok(()));
}

#[test]
fn states_are_published_while_they_are_wanted() {
    assert_eq!(publish_step(1, 1, Handing::Taken, true), PublishStep::Wanted);
    assert_eq!(publish_step(1, 1, Handing::Full, true), PublishStep::Again);
    assert_eq!(publish_step(1, 1, Handing::Full, false), PublishStep::Unwanted);
    assert_eq!(publish_step(1, 1, Handing::Closed, true), PublishStep::Unwanted);
    assert_eq!(publish_step(1, 2, Handing::Taken, true), PublishStep::Unwanted);
}

fn published(action: WatchAction) -> EndpointState {
    match action {
        WatchAction::Publish(state) => state,
        other => panic!("expected a state to publish, got {other:?}"),
    }
}

#[test]
fn a_watch_resumes_after_the_last_event_and_backs_off() {
    let mut watch = EndpointWatch::new(endpoint("tana", "tana.example"));
    assert_eq!(
        published(watch.step(WatchEvent::Started, false)).status,
        EndpointConnectionStatus::Connecting
    );
    let WatchAction::Connect(params) = watch.step(WatchEvent::Published(true), false) else {
        panic!("expected a connection");
    };
    assert_eq!(params.after_cursor, None);
    let connected = WatchEvent::Connected { cursor: 4, snapshot: Some(snapshot("tana")) };
    let state = published(watch.step(connected, false));
    assert_eq!(state.status, EndpointConnectionStatus::Connected);
    assert_eq!(watch.step(WatchEvent::Published(true), false), WatchAction::Read);
    let event = EventData::WorkspaceCreated { workspace: workspace() };
    let state = published(watch.step(
        WatchEvent::Received(SequencedEventEnvelope { cursor: 5, event }),
        false,
    ));
    assert_eq!(state.cursor, Some(5));
    assert_eq!(watch.step(WatchEvent::Published(true), false), WatchAction::Read);
    let state = published(watch.step(WatchEvent::ReadFailed("broken".into()), false));
    assert_eq!(state.status, EndpointConnectionStatus::Disconnected);
    assert_eq!(watch.step(WatchEvent::Published(true), false), WatchAction::Wait(1));
    published(watch.step(WatchEvent::Waited, false));
    let WatchAction::Connect(params) = watch.step(WatchEvent::Published(true), false) else {
        panic!("expected a connection");
    };
    assert_eq!(params.after_cursor, Some(5));
    assert_eq!(params.server_id.as_deref(), Some("server"));
    published(watch.step(WatchEvent::ConnectFailed("refused".into()), false));
    assert_eq!(watch.step(WatchEvent::Published(true), false), WatchAction::Wait(2));
}

#[test]
fn a_stopped_or_unwanted_watch_ends() {
    let mut watch = EndpointWatch::new(endpoint("tana", "tana.example"));
    assert_eq!(watch.step(WatchEvent::Started, true), WatchAction::End);
    let mut watch = EndpointWatch::new(endpoint("tana", "tana.example"));
    published(watch.step(WatchEvent::Started, false));
    assert_eq!(watch.step(WatchEvent::Published(false), false), WatchAction::End);
}

#[test]
fn a_disabled_endpoint_is_only_shown() {
    let off = FederationEndpointConfig { enabled: false, ..endpoint("tana", "tana.example") };
    let mut watch = EndpointWatch::new(off);
    let state = published(watch.step(WatchEvent::Started, false));
    assert_eq!(state.status, EndpointConnectionStatus::Disabled);
    assert_eq!(watch.step(WatchEvent::Published(true), false), WatchAction::End);
}

#[test]
fn an_event_that_comes_twice_counts_once() {
    let moved = PaneInfo { pane_id: "p2".into(), ..pane() };
    let events = || {
        vec![
            EventData::PaneUpdated { pane: PaneInfo { title: Some("new".into()), ..pane() } },
            EventData::WorkspaceFocused { workspace_id: workspace().workspace_id },
            EventData::TabMoved {
                workspace_id: tab().workspace_id,
                tabs: vec![TabInfo { label: "moved".into(), ..tab() }],
            },
            EventData::PaneExited { pane_id: pane().pane_id },
            EventData::PaneMoved {
                previous_pane_id: pane().pane_id,
                pane: moved.clone(),
                created_workspace: None,
                created_tab: None,
                closed_workspace_id: Some(workspace().workspace_id),
                closed_tab_id: None,
            },
            EventData::WorktreeRemoved { workspace_id: workspace().workspace_id },
        ]
    };
    for (once_event, twice_event) in events().into_iter().zip(events()) {
        let mut once = populated();
        happens(&mut once, 1, once_event);
        let mut twice = populated();
        let envelope = SequencedEventEnvelope { cursor: 1, event: twice_event };
        apply_event(&mut twice, &envelope);
        apply_event(&mut twice, &envelope);
        assert_eq!(once, twice);
    }
}
