//! The session as the API describes it: workspaces, tabs, panes, agents, and the events that
//! change them.

use std::sync::Arc;
use vstd::prelude::*;

verus! {

/// `Arc::clone` makes another pointer to the same value; the value is the one given.
#[verifier::external_body]
pub(crate) fn share<T>(value: &Arc<T>) -> (r: Arc<T>)
    ensures
        r == *value,
{
    Arc::clone(value)
}

fn share_option<T>(value: &Option<Arc<T>>) -> (r: Option<Arc<T>>)
    ensures
        r == *value,
{
    match value {
        Some(shared) => Some(share(shared)),
        None => None,
    }
}

/// A copy of an optional text.
pub fn same_option(value: &Option<String>) -> (r: Option<String>)
    ensures
        r == *value,
{
    match value {
        Some(text) => Some(text.clone()),
        None => None,
    }
}

/// A key and its value.
#[derive(Debug, PartialEq, Eq)]
pub struct Label {
    pub key: String,
    pub value: String,
}

/// What an agent is doing.
#[derive(Debug, Clone, Copy, PartialEq, Eq, Structural)]
pub enum AgentStatus {
    Idle,
    Working,
    Blocked,
    Done,
    Unknown,
}

/// How an agent's own session is told.
#[derive(Debug, Clone, Copy, PartialEq, Eq, Structural)]
pub enum SessionRefKind {
    Id,
    Path,
}

/// How far a pane is scrolled.
#[derive(Debug, Clone, Copy, PartialEq, Eq, Structural)]
pub struct ScrollInfo {
    pub offset_from_bottom: usize,
    pub max_offset_from_bottom: usize,
}

/// A session of an agent, by id or by path.
#[derive(Debug, PartialEq, Eq)]
pub struct AgentSessionRef {
    pub kind: SessionRefKind,
    pub value: String,
}

impl Clone for AgentSessionRef {
    fn clone(&self) -> (r: Self)
        ensures
            r == *self,
    {
        AgentSessionRef {
            kind: self.kind,
            value: self.value.clone(),
        }
    }
}

/// The agent session that runs in a pane.
#[derive(Debug, PartialEq, Eq)]
pub struct AgentSessionInfo {
    pub source: String,
    pub agent: String,
    pub session_ref: AgentSessionRef,
}

impl Clone for AgentSessionInfo {
    fn clone(&self) -> (r: Self)
        ensures
            r == *self,
    {
        AgentSessionInfo {
            source: self.source.clone(),
            agent: self.agent.clone(),
            session_ref: self.session_ref.clone(),
        }
    }
}

/// Which running server and session this is, and which federation member.
#[derive(Debug, PartialEq, Eq)]
pub struct RuntimeIdentity {
    pub server_id: String,
    pub session_id: String,
    pub session_name: String,
    pub member_id: String,
    pub member_target: String,
    pub member_label: Option<String>,
}

impl Clone for RuntimeIdentity {
    fn clone(&self) -> (r: Self)
        ensures
            r == *self,
    {
        RuntimeIdentity {
            server_id: self.server_id.clone(),
            session_id: self.session_id.clone(),
            session_name: self.session_name.clone(),
            member_id: self.member_id.clone(),
            member_target: self.member_target.clone(),
            member_label: same_option(&self.member_label),
        }
    }
}

/// The git checkout of a workspace.
#[derive(Debug, PartialEq, Eq)]
pub struct WorktreeInfo {
    pub path: String,
    pub branch: Option<String>,
}

impl Clone for WorktreeInfo {
    fn clone(&self) -> (r: Self)
        ensures
            r == *self,
    {
        WorktreeInfo {
            path: self.path.clone(),
            branch: same_option(&self.branch),
        }
    }
}

/// A workspace.
#[derive(Debug, PartialEq, Eq)]
pub struct WorkspaceInfo {
    pub workspace_id: String,
    pub number: usize,
    pub label: String,
    pub focused: bool,
    pub pane_count: usize,
    pub tab_count: usize,
    pub active_tab_id: String,
    /// The most pressing status of its panes.
    pub agent_status: AgentStatus,
    pub terminal_launcher_argv: Option<Arc<Vec<String>>>,
    pub tokens: Arc<Vec<Label>>,
    pub worktree: Option<Arc<WorktreeInfo>>,
    pub project: Option<String>,
    pub branch: Option<String>,
    pub git_ahead_behind: Option<(u32, u32)>,
}

impl Clone for WorkspaceInfo {
    fn clone(&self) -> (r: Self)
        ensures
            r == *self,
    {
        WorkspaceInfo {
            workspace_id: self.workspace_id.clone(),
            number: self.number,
            label: self.label.clone(),
            focused: self.focused,
            pane_count: self.pane_count,
            tab_count: self.tab_count,
            active_tab_id: self.active_tab_id.clone(),
            agent_status: self.agent_status,
            terminal_launcher_argv: share_option(&self.terminal_launcher_argv),
            tokens: share(&self.tokens),
            worktree: share_option(&self.worktree),
            project: same_option(&self.project),
            branch: same_option(&self.branch),
            git_ahead_behind: self.git_ahead_behind,
        }
    }
}

/// A tab.
#[derive(Debug, PartialEq, Eq)]
pub struct TabInfo {
    pub tab_id: String,
    pub workspace_id: String,
    pub number: usize,
    pub label: String,
    pub focused: bool,
    pub pane_count: usize,
    /// The most pressing status of its panes.
    pub agent_status: AgentStatus,
}

impl Clone for TabInfo {
    fn clone(&self) -> (r: Self)
        ensures
            r == *self,
    {
        TabInfo {
            tab_id: self.tab_id.clone(),
            workspace_id: self.workspace_id.clone(),
            number: self.number,
            label: self.label.clone(),
            focused: self.focused,
            pane_count: self.pane_count,
            agent_status: self.agent_status,
        }
    }
}

/// A pane.
#[derive(Debug, PartialEq, Eq)]
pub struct PaneInfo {
    pub pane_id: String,
    pub terminal_id: String,
    pub workspace_id: String,
    pub tab_id: String,
    pub focused: bool,
    pub cwd: Option<String>,
    pub foreground_cwd: Option<String>,
    pub label: Option<String>,
    pub agent: Option<String>,
    pub title: Option<String>,
    pub terminal_title: Option<String>,
    pub terminal_title_stripped: Option<String>,
    pub display_agent: Option<String>,
    pub agent_status: AgentStatus,
    pub state_labels: Arc<Vec<Label>>,
    pub tokens: Arc<Vec<Label>>,
    pub agent_session: Option<Arc<AgentSessionInfo>>,
    pub scroll: Option<ScrollInfo>,
    pub revision: u64,
}

impl Clone for PaneInfo {
    fn clone(&self) -> (r: Self)
        ensures
            r == *self,
    {
        PaneInfo {
            pane_id: self.pane_id.clone(),
            terminal_id: self.terminal_id.clone(),
            workspace_id: self.workspace_id.clone(),
            tab_id: self.tab_id.clone(),
            focused: self.focused,
            cwd: same_option(&self.cwd),
            foreground_cwd: same_option(&self.foreground_cwd),
            label: same_option(&self.label),
            agent: same_option(&self.agent),
            title: same_option(&self.title),
            terminal_title: same_option(&self.terminal_title),
            terminal_title_stripped: same_option(&self.terminal_title_stripped),
            display_agent: same_option(&self.display_agent),
            agent_status: self.agent_status,
            state_labels: share(&self.state_labels),
            tokens: share(&self.tokens),
            agent_session: share_option(&self.agent_session),
            scroll: self.scroll,
            revision: self.revision,
        }
    }
}

/// How the panes of a tab are laid out.
#[derive(Debug, PartialEq, Eq)]
pub struct PaneLayoutSnapshot {
    pub workspace_id: String,
    pub tab_id: String,
    /// The tree of splits, as its owner wrote it.
    pub tree: Arc<String>,
}

impl Clone for PaneLayoutSnapshot {
    fn clone(&self) -> (r: Self)
        ensures
            r == *self,
    {
        PaneLayoutSnapshot {
            workspace_id: self.workspace_id.clone(),
            tab_id: self.tab_id.clone(),
            tree: share(&self.tree),
        }
    }
}

/// An agent, as its pane shows it.
#[derive(Debug, PartialEq, Eq)]
pub struct AgentInfo {
    pub terminal_id: String,
    /// The name it was given; the pane does not know it.
    pub name: Option<String>,
    pub agent: Option<String>,
    pub title: Option<String>,
    pub terminal_title: Option<String>,
    pub terminal_title_stripped: Option<String>,
    pub display_agent: Option<String>,
    pub agent_status: AgentStatus,
    /// Its status does not come from the screen; the pane does not know it.
    pub screen_detection_skipped: bool,
    pub state_labels: Arc<Vec<Label>>,
    pub tokens: Arc<Vec<Label>>,
    pub agent_session: Option<Arc<AgentSessionInfo>>,
    pub workspace_id: String,
    pub tab_id: String,
    pub pane_id: String,
    pub focused: bool,
    pub cwd: Option<String>,
    pub foreground_cwd: Option<String>,
    pub revision: u64,
}

impl Clone for AgentInfo {
    fn clone(&self) -> (r: Self)
        ensures
            r == *self,
    {
        AgentInfo {
            terminal_id: self.terminal_id.clone(),
            name: same_option(&self.name),
            agent: same_option(&self.agent),
            title: same_option(&self.title),
            terminal_title: same_option(&self.terminal_title),
            terminal_title_stripped: same_option(&self.terminal_title_stripped),
            display_agent: same_option(&self.display_agent),
            agent_status: self.agent_status,
            screen_detection_skipped: self.screen_detection_skipped,
            state_labels: share(&self.state_labels),
            tokens: share(&self.tokens),
            agent_session: share_option(&self.agent_session),
            workspace_id: self.workspace_id.clone(),
            tab_id: self.tab_id.clone(),
            pane_id: self.pane_id.clone(),
            focused: self.focused,
            cwd: same_option(&self.cwd),
            foreground_cwd: same_option(&self.foreground_cwd),
            revision: self.revision,
        }
    }
}

/// An archived agent session.
#[derive(Debug, PartialEq, Eq)]
pub struct ArchivedAgentInfo {
    pub archive_id: String,
    pub member_id: String,
    pub agent: String,
    pub title: Option<String>,
    pub label: Option<String>,
    pub cwd: String,
    pub workspace_id: String,
    pub workspace_name: Option<String>,
    pub project_key: Option<String>,
    pub project_name: Option<String>,
    pub tab_name: Option<String>,
    pub resumable: bool,
    pub active_pane_id: Option<String>,
    pub last_user_activity_at: Option<u64>,
    pub last_agent_activity_at: Option<u64>,
    pub closed_at: Option<u64>,
}

impl Clone for ArchivedAgentInfo {
    fn clone(&self) -> (r: Self)
        ensures
            r == *self,
    {
        ArchivedAgentInfo {
            archive_id: self.archive_id.clone(),
            member_id: self.member_id.clone(),
            agent: self.agent.clone(),
            title: same_option(&self.title),
            label: same_option(&self.label),
            cwd: self.cwd.clone(),
            workspace_id: self.workspace_id.clone(),
            workspace_name: same_option(&self.workspace_name),
            project_key: same_option(&self.project_key),
            project_name: same_option(&self.project_name),
            tab_name: same_option(&self.tab_name),
            resumable: self.resumable,
            active_pane_id: same_option(&self.active_pane_id),
            last_user_activity_at: self.last_user_activity_at,
            last_agent_activity_at: self.last_agent_activity_at,
            closed_at: self.closed_at,
        }
    }
}

/// What a watcher asks for: the events after a cursor, of the runtime it knew.
#[derive(Debug, PartialEq, Eq)]
pub struct SessionWatchParams {
    pub after_cursor: Option<u64>,
    pub member_id: Option<String>,
    pub server_id: Option<String>,
    pub session_id: Option<String>,
}

impl Clone for SessionWatchParams {
    fn clone(&self) -> (r: Self)
        ensures
            r == *self,
    {
        SessionWatchParams {
            after_cursor: self.after_cursor,
            member_id: same_option(&self.member_id),
            server_id: same_option(&self.server_id),
            session_id: same_option(&self.session_id),
        }
    }
}

/// A change of the session.
#[derive(Debug, PartialEq, Eq)]
pub enum EventData {
    WorkspaceCreated { workspace: WorkspaceInfo },
    WorkspaceUpdated { workspace: WorkspaceInfo },
    WorkspaceMetadataUpdated { workspace: WorkspaceInfo },
    WorktreeCreated { workspace: WorkspaceInfo },
    WorktreeOpened { workspace: WorkspaceInfo },
    WorkspaceClosed { workspace_id: String },
    WorktreeRemoved { workspace_id: String },
    WorkspaceRenamed { workspace_id: String, label: String },
    WorkspaceMoved { workspaces: Vec<WorkspaceInfo> },
    WorkspaceFocused { workspace_id: String },
    TabCreated { tab: TabInfo },
    TabClosed { tab_id: String },
    TabRenamed { tab_id: String, label: String },
    TabMoved { workspace_id: String, tabs: Vec<TabInfo> },
    TabFocused { tab_id: String, workspace_id: String },
    PaneCreated { pane: PaneInfo },
    PaneUpdated { pane: PaneInfo },
    PaneClosed { pane_id: String },
    PaneFocused { pane_id: String, workspace_id: String },
    PaneMoved {
        previous_pane_id: String,
        pane: PaneInfo,
        created_workspace: Option<WorkspaceInfo>,
        created_tab: Option<TabInfo>,
        closed_workspace_id: Option<String>,
        closed_tab_id: Option<String>,
    },
    PaneOutputChanged { pane_id: String, revision: u64 },
    PaneExited { pane_id: String },
    PaneAgentDetected { pane_id: String, agent: Option<String> },
    PaneAgentStatusChanged {
        pane_id: String,
        agent_status: AgentStatus,
        agent: Option<String>,
        title: Option<String>,
        display_agent: Option<String>,
        state_labels: Arc<Vec<Label>>,
    },
    LayoutUpdated { layout: PaneLayoutSnapshot },
}

/// A change and its place in the stream of changes.
#[derive(Debug, PartialEq, Eq)]
pub struct SequencedEventEnvelope {
    pub cursor: u64,
    pub event: EventData,
}

/// Everything a watcher knows of a session.
#[derive(Debug, PartialEq, Eq)]
pub struct SessionSnapshot {
    pub identity: RuntimeIdentity,
    pub version: String,
    pub protocol: u32,
    pub event_cursor: u64,
    pub focused_workspace_id: Option<String>,
    pub focused_tab_id: Option<String>,
    pub focused_pane_id: Option<String>,
    pub workspaces: Vec<WorkspaceInfo>,
    pub tabs: Vec<TabInfo>,
    pub panes: Vec<PaneInfo>,
    pub layouts: Vec<PaneLayoutSnapshot>,
    pub agents: Vec<AgentInfo>,
    pub archived_agents: Vec<ArchivedAgentInfo>,
}

/// A snapshot, with its lists as sequences.
#[verifier::ext_equal]
pub struct Snapshot {
    pub identity: RuntimeIdentity,
    pub version: String,
    pub protocol: u32,
    pub event_cursor: u64,
    pub focused_workspace_id: Option<String>,
    pub focused_tab_id: Option<String>,
    pub focused_pane_id: Option<String>,
    pub workspaces: Seq<WorkspaceInfo>,
    pub tabs: Seq<TabInfo>,
    pub panes: Seq<PaneInfo>,
    pub layouts: Seq<PaneLayoutSnapshot>,
    pub agents: Seq<AgentInfo>,
    pub archived_agents: Seq<ArchivedAgentInfo>,
}

impl View for SessionSnapshot {
    type V = Snapshot;

    open spec fn view(&self) -> Snapshot {
        Snapshot {
            identity: self.identity,
            version: self.version,
            protocol: self.protocol,
            event_cursor: self.event_cursor,
            focused_workspace_id: self.focused_workspace_id,
            focused_tab_id: self.focused_tab_id,
            focused_pane_id: self.focused_pane_id,
            workspaces: self.workspaces@,
            tabs: self.tabs@,
            panes: self.panes@,
            layouts: self.layouts@,
            agents: self.agents@,
            archived_agents: self.archived_agents@,
        }
    }
}

/// A copy of a list.
pub fn copied<T: Clone>(items: &Vec<T>) -> (r: Vec<T>)
    requires
        forall|a: T, b: T| call_ensures(T::clone, (&a,), b) ==> a == b,
    ensures
        r@ == items@,
{
    let mut out: Vec<T> = Vec::new();
    let mut i: usize = 0;
    while i < items.len()
        invariant
            i <= items@.len(),
            forall|a: T, b: T| call_ensures(T::clone, (&a,), b) ==> a == b,
            out@ == items@.take(i as int),
        decreases items@.len() - i,
    {
        let item = items[i].clone();
        assert(call_ensures(T::clone, (&items@[i as int],), item));
        out.push(item);
        assert(items@.take(i + 1) =~= items@.take(i as int).push(items@[i as int]));
        i += 1;
    }
    assert(items@.take(i as int) =~= items@);
    out
}

impl SessionSnapshot {
    /// A copy of the snapshot.
    pub fn duplicate(&self) -> (r: Self)
        ensures
            r@ == self@,
    {
        SessionSnapshot {
            identity: self.identity.clone(),
            version: self.version.clone(),
            protocol: self.protocol,
            event_cursor: self.event_cursor,
            focused_workspace_id: same_option(&self.focused_workspace_id),
            focused_tab_id: same_option(&self.focused_tab_id),
            focused_pane_id: same_option(&self.focused_pane_id),
            workspaces: copied(&self.workspaces),
            tabs: copied(&self.tabs),
            panes: copied(&self.panes),
            layouts: copied(&self.layouts),
            agents: copied(&self.agents),
            archived_agents: copied(&self.archived_agents),
        }
    }
}

} // verus!
