//! Session snapshots, the federation directory and focusing what it names.

use herdr::agent_archive::ArchivedAgentSession;
use herdr::client::runtime::federated_endpoint_runtime_identity;
use herdr::federation::directory::{merge_federation_directory, sort_states, FederationView};
use herdr::federation::endpoint::{EndpointConnectionStatus, EndpointState, FederatedResourceKind};
use herdr::federation::endpoint::{FederatedResourceRef, FederationEndpointConfig};
use herdr::runtime_identity::FederationMember;
use herdr::schema::{AgentStatus, PaneInfo, PaneLayoutSnapshot, RuntimeIdentity};
use herdr::schema::{SessionSnapshot, TabInfo, WorkspaceInfo};
use herdr::session::{focus_federated_resource, focus_outcome, session_snapshot, ArchiveParts};
use herdr::session::{FocusTarget, PanePlace, Resources, SessionParts, TabParts, TabPlace};
use herdr::session::{ActiveWorkspace, WorkspaceParts};
use std::sync::Arc;

fn identity(member_id: &str) -> RuntimeIdentity {
    RuntimeIdentity {
        server_id: "server".into(),
        session_id: "session".into(),
        session_name: "default".into(),
        member_id: member_id.into(),
        member_target: format!("{member_id}.example"),
        member_label: None,
    }
}

fn tab(id: &str, number: usize) -> TabParts {
    TabParts {
        info: Some(TabInfo {
            tab_id: id.into(),
            workspace_id: "w1".into(),
            number,
            label: id.into(),
            focused: number == 1,
            pane_count: 1,
            agent_status: AgentStatus::Unknown,
        }),
        layout: Some(PaneLayoutSnapshot {
            workspace_id: "w1".into(),
            tab_id: id.into(),
            tree: Arc::new("leaf".into()),
        }),
    }
}

fn pane(id: &str, tab_id: &str, focused: bool) -> PaneInfo {
    PaneInfo {
        pane_id: id.into(),
        terminal_id: format!("terminal-{id}"),
        workspace_id: "w1".into(),
        tab_id: tab_id.into(),
        focused,
        cwd: None,
        foreground_cwd: None,
        label: None,
        agent: None,
        title: None,
        terminal_title: None,
        terminal_title_stripped: None,
        display_agent: None,
        agent_status: AgentStatus::Unknown,
        state_labels: Arc::new(Vec::new()),
        tokens: Arc::new(Vec::new()),
        agent_session: None,
        scroll: None,
        revision: 0,
    }
}

fn archive(id: &str) -> ArchivedAgentSession {
    ArchivedAgentSession {
        archive_id: id.into(),
        source: None,
        agent: "codex".into(),
        session_ref: None,
        title: None,
        label: None,
        agent_name: None,
        cwd: "/srv".into(),
        project_root: None,
        workspace_id: "w1".into(),
        workspace_name: None,
        project_identity: None,
        worktree_space: None,
        tab_name: None,
        last_user_activity_at: None,
        last_agent_activity_at: None,
        closed_at: Some(9),
        active_pane_id: None,
    }
}

/// A session with one workspace of two tabs.
fn parts(member_id: &str) -> SessionParts {
    SessionParts {
        identity: Some(identity(member_id)),
        session_name: "default".into(),
        member: FederationMember {
            member_id: member_id.into(),
            member_target: format!("{member_id}.example"),
            member_label: None,
        },
        version: "0.1.0".into(),
        protocol: 1,
        event_cursor: 3,
        active: Some(ActiveWorkspace { index: 0, workspace_id: "w1".into() }),
        workspaces: vec![WorkspaceParts {
            info: WorkspaceInfo {
                workspace_id: "w1".into(),
                number: 1,
                label: "snapshot".into(),
                focused: true,
                pane_count: 2,
                tab_count: 2,
                active_tab_id: "w1:t1".into(),
                agent_status: AgentStatus::Unknown,
                terminal_launcher_argv: None,
                tokens: Arc::new(Vec::new()),
                worktree: None,
                project: None,
                branch: None,
                git_ahead_behind: None,
            },
            tabs: vec![tab("w1:t1", 1), tab("w1:t2", 2)],
            active_tab: 0,
            focused_pane_id: Some("w1:p1".into()),
        }],
        panes: Some(vec![pane("w1:p1", "w1:t1", true), pane("w1:p2", "w1:t2", false)]),
        agents: Vec::new(),
        archives: vec![ArchiveParts { archive: archive("archive-1"), resumable: true }],
    }
}

fn snapshot_for_member(member_id: &str, workspace_label: &str) -> SessionSnapshot {
    let mut snapshot = session_snapshot(&parts(member_id));
    snapshot.workspaces[0].label = workspace_label.into();
    snapshot
}

fn endpoint_state(
    id: &str,
    target: &str,
    status: EndpointConnectionStatus,
    snapshot: Option<SessionSnapshot>,
) -> EndpointState {
    EndpointState {
        endpoint: FederationEndpointConfig {
            id: id.into(),
            target: target.into(),
            label: None,
            session: "default".into(),
            enabled: true,
        },
        status,
        cursor: snapshot.as_ref().map(|snapshot| snapshot.event_cursor),
        snapshot,
        error: None,
    }
}

fn connected(id: &str, label: &str) -> EndpointState {
    endpoint_state(
        id,
        &format!("{id}.example"),
        EndpointConnectionStatus::Connected,
        Some(snapshot_for_member(id, label)),
    )
}

fn first_label(state: Option<&EndpointState>) -> Option<&str> {
    state
        .and_then(|state| state.snapshot.as_ref())
        .and_then(|snapshot| snapshot.workspaces.first())
        .map(|workspace| workspace.label.as_str())
}

#[test]
fn client_directory_wins_over_receivers_connected_watcher_cache() {
    let mut view = FederationView::new();
    view.watched.insert(connected("member-a", "stale receiver label"));

    view.apply_federation_directory(Some(vec![
        connected("member-a", "pinned home label"),
        connected("member-b", "active member label"),
    ]));

    assert_eq!(first_label(view.federation_state("member-a")), Some("pinned home label"));
    assert!(view.overlay.get("member-b").is_some());
    assert_eq!(
        view.federation_states("member-b")
            .iter()
            .map(|state| state.endpoint.id.as_str())
            .collect::<Vec<_>>(),
        vec!["member-a"]
    );
}

#[test]
fn client_directory_preserves_transient_snapshots_and_replaces_membership() {
    let mut view = FederationView::new();
    view.apply_federation_directory(Some(vec![
        connected("member-a", "stable label"),
        connected("member-b", "active label"),
        connected("member-c", "revoked label"),
    ]));

    view.apply_federation_directory(Some(vec![
        endpoint_state(
            "member-a",
            "member-a.example",
            EndpointConnectionStatus::Disconnected,
            None,
        ),
        connected("member-b", "active label"),
    ]));

    let member_a = view.federation_state("member-a");
    assert_eq!(first_label(member_a), Some("stable label"));
    assert_eq!(member_a.unwrap().status, EndpointConnectionStatus::Disconnected);
    assert!(view.federation_state("member-c").is_none());
}

#[test]
fn authoritative_empty_directory_does_not_fall_back_to_receiver_watchers() {
    let mut view = FederationView::new();
    view.watched.insert(endpoint_state(
        "receiver-only",
        "receiver.example",
        EndpointConnectionStatus::Connected,
        None,
    ));

    view.apply_federation_directory(Some(Vec::new()));
    assert!(view.federation_state("receiver-only").is_none());
    assert_eq!(view.federation_states("local").len(), 0);

    view.apply_federation_directory(None);
    assert!(view.federation_state("receiver-only").is_some());
}

#[test]
fn session_snapshot_bootstraps_runtime_resources() {
    let snapshot = session_snapshot(&parts("local"));
    assert_eq!(snapshot.workspaces.len(), 1);
    assert_eq!(snapshot.tabs.len(), 2);
    assert_eq!(snapshot.panes.len(), 2);
    assert_eq!(snapshot.layouts.len(), 2);
    assert_eq!(
        snapshot.focused_workspace_id.as_deref(),
        Some(snapshot.workspaces[0].workspace_id.as_str())
    );
    assert_eq!(snapshot.focused_tab_id.as_deref(), Some(snapshot.tabs[0].tab_id.as_str()));
    assert_eq!(snapshot.focused_pane_id.as_deref(), Some(snapshot.panes[0].pane_id.as_str()));
    assert_eq!(snapshot.archived_agents.len(), 1);
    assert!(snapshot.archived_agents[0].resumable);
}

#[test]
fn an_active_place_beyond_the_workspaces_still_has_its_id() {
    let active = Some(ActiveWorkspace { index: 7, workspace_id: "w8".into() });
    let snapshot = session_snapshot(&SessionParts { active, ..parts("local") });
    assert_eq!(snapshot.focused_workspace_id.as_deref(), Some("w8"));
    assert_eq!(snapshot.focused_tab_id, None);
    assert_eq!(snapshot.focused_pane_id, None);
    assert_eq!(snapshot.workspaces.len(), 1);
}

#[test]
fn a_session_without_an_identity_still_has_its_member() {
    let nameless = SessionParts { identity: None, active: None, panes: None, ..parts("x1") };
    let snapshot = session_snapshot(&nameless);
    assert_eq!(snapshot.identity.member_id, "x1");
    assert_eq!(snapshot.identity.server_id, "unavailable");
    assert_eq!(snapshot.identity.session_name, "default");
    assert_eq!(snapshot.focused_workspace_id, None);
    assert!(snapshot.panes.is_empty());
}

#[test]
fn authoritative_directory_update_revokes_removed_members() {
    let endpoint = |id: &str| {
        EndpointState::configured(FederationEndpointConfig {
            id: id.into(),
            target: id.into(),
            label: None,
            session: "default".into(),
            enabled: true,
        })
    };
    let mut directory = vec![endpoint("x1"), endpoint("stl-agents-1"), endpoint("tana")];
    merge_federation_directory(&mut directory, &vec![endpoint("x1"), endpoint("stl-agents-1")]);
    assert_eq!(
        directory.iter().map(|state| state.endpoint.id.as_str()).collect::<Vec<_>>(),
        vec!["stl-agents-1", "x1"]
    );
}

#[test]
fn sorting_keeps_equal_ids_in_order() {
    let labelled = |id: &str, target: &str| {
        endpoint_state(id, target, EndpointConnectionStatus::Connected, None)
    };
    let sorted =
        sort_states(&vec![labelled("b", "1"), labelled("a", "2"), labelled("b", "3")]);
    let order: Vec<(&str, &str)> = sorted
        .iter()
        .map(|state| (state.endpoint.id.as_str(), state.endpoint.target.as_str()))
        .collect();
    assert_eq!(order, vec![("a", "2"), ("b", "1"), ("b", "3")]);
}

#[test]
fn resource_less_activation_uses_home_snapshot_runtime_identity() {
    let mut endpoint =
        endpoint_state("stl-agents-1", "paul@stl-agents-1", EndpointConnectionStatus::Connecting, None);
    endpoint.snapshot = Some(SessionSnapshot {
        identity: RuntimeIdentity {
            server_id: "server-stl".into(),
            session_id: "session-stl".into(),
            ..identity("stl-agents-1")
        },
        ..session_snapshot(&parts("stl-agents-1"))
    });
    assert_eq!(
        federated_endpoint_runtime_identity(&endpoint),
        Some(("server-stl".into(), "session-stl".into()))
    );
}

fn resource(kind: FederatedResourceKind, resource_id: &str) -> FederatedResourceRef {
    FederatedResourceRef {
        endpoint_id: "x1".into(),
        server_id: "server".into(),
        session_id: "session".into(),
        kind,
        resource_id: resource_id.into(),
    }
}

fn known() -> Resources {
    Resources {
        workspaces: vec!["w1".into(), "w2".into()],
        tabs: vec![TabPlace { tab_id: "w2:t1".into(), ws_idx: 1, tab_idx: 0 }],
        panes: vec![PanePlace { pane_id: "w2:p4".into(), ws_idx: 1, tab_idx: 0, pane: 44 }],
    }
}

#[test]
fn resources_of_this_runtime_are_found() {
    let here = Ok(identity("x1"));
    let find = |kind: FederatedResourceKind, id: &str| {
        focus_federated_resource(&resource(kind, id), "x1", &here, &known())
    };
    assert_eq!(
        find(FederatedResourceKind::Workspace, "w2"),
        Ok(FocusTarget::Workspace { ws_idx: 1 })
    );
    assert_eq!(
        find(FederatedResourceKind::Tab, "w2:t1"),
        Ok(FocusTarget::Tab { ws_idx: 1, tab_idx: 0 })
    );
    assert_eq!(
        find(FederatedResourceKind::Pane, "w2:p4"),
        Ok(FocusTarget::Pane { ws_idx: 1, tab_idx: 0, pane: 44 })
    );
    assert_eq!(
        find(FederatedResourceKind::ArchivedAgent, "archive-1"),
        Ok(FocusTarget::Archive { archive_id: "archive-1".into() })
    );
    assert!(find(FederatedResourceKind::Workspace, "w9").is_err());
    assert!(find(FederatedResourceKind::Tab, "w9:t1").is_err());
    assert!(find(FederatedResourceKind::Pane, "w9:p1").is_err());
}

#[test]
fn resources_of_another_runtime_are_refused() {
    let wanted = resource(FederatedResourceKind::Workspace, "w1");
    assert!(focus_federated_resource(&wanted, "other", &Ok(identity("x1")), &known()).is_err());
    let replaced = RuntimeIdentity { server_id: "replacement".into(), ..identity("x1") };
    assert!(focus_federated_resource(&wanted, "x1", &Ok(replaced), &known()).is_err());
    assert!(focus_federated_resource(&wanted, "x1", &Err("gone".into()), &known()).is_err());
    assert_eq!(focus_outcome(&wanted, true), Ok(()));
    assert!(focus_outcome(&resource(FederatedResourceKind::Pane, "w2:p4"), false).is_err());
}
