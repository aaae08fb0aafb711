//! A watched session: its snapshot, kept up to date by its events.

use crate::schema::{
    copied, same_option, share, AgentInfo, AgentStatus, EventData, PaneInfo, PaneLayoutSnapshot,
    SequencedEventEnvelope, SessionSnapshot, Snapshot, TabInfo, WorkspaceInfo,
};
use crate::text::same_text;
use vstd::prelude::*;

verus! {

/// What an entry of a snapshot is looked up by.
#[derive(Debug, Clone, Copy, PartialEq, Eq, Structural)]
pub enum Key {
    /// Its own id; of a layout, the tab it is for.
    Own,
    /// The workspace it is in.
    Workspace,
    /// The tab it is in.
    Tab,
}

/// An entry of a snapshot.
pub trait Entry: Sized {
    spec fn key(&self, k: Key) -> Seq<char>;

    fn has_key(&self, k: Key, id: &str) -> (r: bool)
        ensures
            r == (self.key(k) == id@),
    ;
}

impl Entry for WorkspaceInfo {
    open spec fn key(&self, k: Key) -> Seq<char> {
        self.workspace_id@
    }

    fn has_key(&self, k: Key, id: &str) -> (r: bool) {
        same_text(self.workspace_id.as_str(), id)
    }
}

impl Entry for TabInfo {
    open spec fn key(&self, k: Key) -> Seq<char> {
        match k {
            Key::Workspace => self.workspace_id@,
            _ => self.tab_id@,
        }
    }

    fn has_key(&self, k: Key, id: &str) -> (r: bool) {
        match k {
            Key::Workspace => same_text(self.workspace_id.as_str(), id),
            _ => same_text(self.tab_id.as_str(), id),
        }
    }
}

impl Entry for PaneInfo {
    open spec fn key(&self, k: Key) -> Seq<char> {
        match k {
            Key::Own => self.pane_id@,
            Key::Workspace => self.workspace_id@,
            Key::Tab => self.tab_id@,
        }
    }

    fn has_key(&self, k: Key, id: &str) -> (r: bool) {
        match k {
            Key::Own => same_text(self.pane_id.as_str(), id),
            Key::Workspace => same_text(self.workspace_id.as_str(), id),
            Key::Tab => same_text(self.tab_id.as_str(), id),
        }
    }
}

impl Entry for PaneLayoutSnapshot {
    open spec fn key(&self, k: Key) -> Seq<char> {
        match k {
            Key::Workspace => self.workspace_id@,
            _ => self.tab_id@,
        }
    }

    fn has_key(&self, k: Key, id: &str) -> (r: bool) {
        match k {
            Key::Workspace => same_text(self.workspace_id.as_str(), id),
            _ => same_text(self.tab_id.as_str(), id),
        }
    }
}

impl Entry for AgentInfo {
    open spec fn key(&self, k: Key) -> Seq<char> {
        match k {
            Key::Own => self.pane_id@,
            Key::Workspace => self.workspace_id@,
            Key::Tab => self.tab_id@,
        }
    }

    fn has_key(&self, k: Key, id: &str) -> (r: bool) {
        match k {
            Key::Own => same_text(self.pane_id.as_str(), id),
            Key::Workspace => same_text(self.workspace_id.as_str(), id),
            Key::Tab => same_text(self.tab_id.as_str(), id),
        }
    }
}

/// The first entry at or after `i` with an id of its own.
pub open spec fn entry_from<T: Entry>(s: Seq<T>, i: int, id: Seq<char>) -> Option<int>
    decreases s.len() - i,
{
    if i >= s.len() {
        None
    } else if s[i].key(Key::Own) == id {
        Some(i)
    } else {
        entry_from(s, i + 1, id)
    }
}

/// The entries with `item` in place of the first with its id, or behind the others.
pub open spec fn upserted<T: Entry>(s: Seq<T>, item: T) -> Seq<T> {
    match entry_from(s, 0, item.key(Key::Own)) {
        Some(i) => s.update(i, item),
        None => s.push(item),
    }
}

/// An entry has another key.
pub open spec fn lacks<T: Entry>(k: Key, id: Seq<char>) -> spec_fn(T) -> bool {
    |x: T| x.key(k) != id
}

/// The entries without those that have a key.
pub open spec fn without<T: Entry>(s: Seq<T>, k: Key, id: Seq<char>) -> Seq<T> {
    s.filter(lacks(k, id))
}

fn find_entry<T: Entry>(items: &Vec<T>, id: &str) -> (r: Option<usize>)
    ensures
        crate::text::place(r) == entry_from(items@, 0, id@),
        r matches Some(i) ==> i < items@.len() && items@[i as int].key(Key::Own) == id@,
{
    let mut i: usize = 0;
    while i < items.len()
        invariant
            i <= items@.len(),
            entry_from(items@, 0, id@) == entry_from(items@, i as int, id@),
        decreases items@.len() - i,
    {
        if items[i].has_key(Key::Own, id) {
            return Some(i);
        }
        i += 1;
    }
    None
}

fn put<T: Entry>(items: &mut Vec<T>, item: T, at: Option<usize>)
    requires
        crate::text::place(at) == entry_from(old(items)@, 0, item.key(Key::Own)),
        at matches Some(i) ==> i < old(items)@.len(),
    ensures
        final(items)@ == upserted(old(items)@, item),
{
    match at {
        Some(i) => items[i] = item,
        None => items.push(item),
    }
}

fn upsert_workspace(items: &mut Vec<WorkspaceInfo>, item: WorkspaceInfo)
    ensures
        final(items)@ == upserted(old(items)@, item),
{
    let at = find_entry(items, item.workspace_id.as_str());
    put(items, item, at);
}

fn upsert_tab(items: &mut Vec<TabInfo>, item: TabInfo)
    ensures
        final(items)@ == upserted(old(items)@, item),
{
    let at = find_entry(items, item.tab_id.as_str());
    put(items, item, at);
}

fn upsert_pane(items: &mut Vec<PaneInfo>, item: PaneInfo)
    ensures
        final(items)@ == upserted(old(items)@, item),
{
    let at = find_entry(items, item.pane_id.as_str());
    put(items, item, at);
}

fn upsert_layout(items: &mut Vec<PaneLayoutSnapshot>, item: PaneLayoutSnapshot)
    ensures
        final(items)@ == upserted(old(items)@, item),
{
    let at = find_entry(items, item.tab_id.as_str());
    put(items, item, at);
}

proof fn lemma_filter_push<T>(s: Seq<T>, x: T, keep: spec_fn(T) -> bool)
    ensures
        s.push(x).filter(keep) == (if keep(x) {
            s.filter(keep).push(x)
        } else {
            s.filter(keep)
        }),
{
    reveal(Seq::filter);
    assert(s.push(x).drop_last() =~= s);
}

fn remove_all<T: Entry>(items: &mut Vec<T>, k: Key, id: &str)
    ensures
        final(items)@ == without(old(items)@, k, id@),
{
    let ghost before = items@;
    let ghost keep = lacks::<T>(k, id@);
    let ghost mut seen: int = 0;
    let mut i: usize = 0;
    proof {
        reveal(Seq::filter);
        assert(before.take(0).filter(keep) =~= Seq::<T>::empty());
        assert(Seq::<T>::empty() + before.skip(0) =~= before);
    }
    while i < items.len()
        invariant
            i <= items@.len(),
            0 <= seen <= before.len(),
            keep == lacks::<T>(k, id@),
            before.take(seen).filter(keep).len() == i,
            items@ == before.take(seen).filter(keep) + before.skip(seen),
        decreases items@.len() - i,
    {
        let ghost kept = before.take(seen).filter(keep);
        assert(before.take(seen + 1) =~= before.take(seen).push(before[seen]));
        proof {
            lemma_filter_push(before.take(seen), before[seen], keep);
        }
        assert(items@[i as int] == before[seen]);
        if items[i].has_key(k, id) {
            items.remove(i);
            assert(items@ =~= kept + before.skip(seen + 1));
        } else {
            assert(items@ =~= kept.push(before[seen]) + before.skip(seen + 1));
            i += 1;
        }
        proof {
            seen = seen + 1;
        }
    }
    assert(seen == before.len());
    assert(before.take(seen) =~= before);
    assert(items@ =~= before.filter(keep));
}

/// How pressing a status is.
pub open spec fn pressure(status: AgentStatus) -> int {
    match status {
        AgentStatus::Blocked => 4,
        AgentStatus::Done => 3,
        AgentStatus::Working => 2,
        AgentStatus::Idle => 1,
        AgentStatus::Unknown => 0,
    }
}

/// The most pressing status of the first `n` panes that have a key.
pub open spec fn most_pressing(panes: Seq<PaneInfo>, n: int, k: Key, id: Seq<char>) -> AgentStatus
    decreases n,
{
    if n <= 0 {
        AgentStatus::Unknown
    } else {
        let rest = most_pressing(panes, n - 1, k, id);
        if panes[n - 1].key(k) == id && pressure(panes[n - 1].agent_status) >= pressure(rest) {
            panes[n - 1].agent_status
        } else {
            rest
        }
    }
}

fn snapshot_agent_status_priority(status: AgentStatus) -> (r: u8)
    ensures
        r == pressure(status),
{
    match status {
        AgentStatus::Blocked => 4,
        AgentStatus::Done => 3,
        AgentStatus::Working => 2,
        AgentStatus::Idle => 1,
        AgentStatus::Unknown => 0,
    }
}

fn aggregate_status(panes: &Vec<PaneInfo>, k: Key, id: &str) -> (r: AgentStatus)
    ensures
        r == most_pressing(panes@, panes@.len() as int, k, id@),
{
    let mut status = AgentStatus::Unknown;
    let mut i: usize = 0;
    while i < panes.len()
        invariant
            i <= panes@.len(),
            status == most_pressing(panes@, i as int, k, id@),
        decreases panes@.len() - i,
    {
        if panes[i].has_key(k, id) && snapshot_agent_status_priority(panes[i].agent_status)
            >= snapshot_agent_status_priority(status) {
            status = panes[i].agent_status;
        }
        i += 1;
    }
    status
}

/// An agent as a pane alone describes it.
pub open spec fn agent_of(pane: PaneInfo) -> AgentInfo {
    AgentInfo {
        terminal_id: pane.terminal_id,
        name: None,
        agent: pane.agent,
        title: pane.title,
        terminal_title: pane.terminal_title,
        terminal_title_stripped: pane.terminal_title_stripped,
        display_agent: pane.display_agent,
        agent_status: pane.agent_status,
        screen_detection_skipped: false,
        state_labels: pane.state_labels,
        tokens: pane.tokens,
        agent_session: pane.agent_session,
        workspace_id: pane.workspace_id,
        tab_id: pane.tab_id,
        pane_id: pane.pane_id,
        focused: pane.focused,
        cwd: pane.cwd,
        foreground_cwd: pane.foreground_cwd,
        revision: pane.revision,
    }
}

/// An agent brought up to date from its pane; its name and where its status comes from stay.
pub open spec fn synced(agent: AgentInfo, pane: PaneInfo) -> AgentInfo {
    AgentInfo {
        name: agent.name,
        screen_detection_skipped: agent.screen_detection_skipped,
        ..agent_of(pane)
    }
}

/// A pane shows signs of an agent.
pub open spec fn shows_agent(pane: PaneInfo) -> bool {
    pane.agent is Some || pane.display_agent is Some || pane.agent_session is Some
}

/// An agent as `pane` alone describes it.
pub fn agent_info_from_pane(pane: &PaneInfo) -> (r: AgentInfo)
    ensures
        r == agent_of(*pane),
{
    let p = pane.clone();
    AgentInfo {
        terminal_id: p.terminal_id,
        name: None,
        agent: p.agent,
        title: p.title,
        terminal_title: p.terminal_title,
        terminal_title_stripped: p.terminal_title_stripped,
        display_agent: p.display_agent,
        agent_status: p.agent_status,
        screen_detection_skipped: false,
        state_labels: p.state_labels,
        tokens: p.tokens,
        agent_session: p.agent_session,
        workspace_id: p.workspace_id,
        tab_id: p.tab_id,
        pane_id: p.pane_id,
        focused: p.focused,
        cwd: p.cwd,
        foreground_cwd: p.foreground_cwd,
        revision: p.revision,
    }
}

fn sync_agent_info_from_pane(agent: &AgentInfo, pane: &PaneInfo) -> (r: AgentInfo)
    ensures
        r == synced(*agent, *pane),
{
    let mut r = agent_info_from_pane(pane);
    r.name = same_option(&agent.name);
    r.screen_detection_skipped = agent.screen_detection_skipped;
    r
}

/// The agents after one pane was looked at: its agent is brought up to date, or added when the
/// pane shows one.
pub open spec fn with_pane(agents: Seq<AgentInfo>, pane: PaneInfo) -> Seq<AgentInfo> {
    match entry_from(agents, 0, pane.pane_id@) {
        Some(i) => agents.update(i, synced(agents[i], pane)),
        None => if shows_agent(pane) {
            agents.push(agent_of(pane))
        } else {
            agents
        },
    }
}

pub open spec fn with_panes(agents: Seq<AgentInfo>, panes: Seq<PaneInfo>, n: int) -> Seq<AgentInfo>
    decreases n,
{
    if n <= 0 {
        agents
    } else {
        with_pane(with_panes(agents, panes, n - 1), panes[n - 1])
    }
}

/// The agents whose pane exists.
pub open spec fn housed(agents: Seq<AgentInfo>, panes: Seq<PaneInfo>) -> Seq<AgentInfo> {
    agents.filter(|a: AgentInfo| entry_from(panes, 0, a.pane_id@) is Some)
}

impl Snapshot {
    /// The snapshot with its agents and statuses derived from its panes.
    pub open spec fn reconciled(self) -> Snapshot {
        let panes = self.panes;
        Snapshot {
            agents: with_panes(housed(self.agents, panes), panes, panes.len() as int),
            tabs: Seq::new(
                self.tabs.len(),
                |i: int|
                    TabInfo {
                        agent_status: most_pressing(
                            panes,
                            panes.len() as int,
                            Key::Tab,
                            self.tabs[i].tab_id@,
                        ),
                        ..self.tabs[i]
                    },
            ),
            workspaces: Seq::new(
                self.workspaces.len(),
                |i: int|
                    WorkspaceInfo {
                        agent_status: most_pressing(
                            panes,
                            panes.len() as int,
                            Key::Workspace,
                            self.workspaces[i].workspace_id@,
                        ),
                        ..self.workspaces[i]
                    },
            ),
            ..self
        }
    }

    /// The panes with the first of an id replaced.
    pub open spec fn with_changed_pane(self, id: Seq<char>, change: spec_fn(PaneInfo) -> PaneInfo) -> Snapshot {
        match entry_from(self.panes, 0, id) {
            Some(i) => Snapshot { panes: self.panes.update(i, change(self.panes[i])), ..self },
            None => self,
        }
    }

    /// The snapshot after an event, before agents and statuses follow.
    pub open spec fn changed(self, event: EventData) -> Snapshot {
        match event {
            EventData::WorkspaceCreated { workspace }
            | EventData::WorkspaceUpdated { workspace }
            | EventData::WorkspaceMetadataUpdated { workspace }
            | EventData::WorktreeCreated { workspace }
            | EventData::WorktreeOpened { workspace } => Snapshot {
                workspaces: upserted(self.workspaces, workspace),
                ..self
            },
            EventData::WorkspaceClosed { workspace_id } | EventData::WorktreeRemoved {
                workspace_id,
            } => Snapshot {
                workspaces: without(self.workspaces, Key::Workspace, workspace_id@),
                tabs: without(self.tabs, Key::Workspace, workspace_id@),
                panes: without(self.panes, Key::Workspace, workspace_id@),
                layouts: without(self.layouts, Key::Workspace, workspace_id@),
                ..self
            },
            EventData::WorkspaceRenamed { workspace_id, label } => match entry_from(
                self.workspaces,
                0,
                workspace_id@,
            ) {
                Some(i) => Snapshot {
                    workspaces: self.workspaces.update(
                        i,
                        WorkspaceInfo { label, ..self.workspaces[i] },
                    ),
                    ..self
                },
                None => self,
            },
            EventData::WorkspaceMoved { workspaces } => Snapshot {
                workspaces: workspaces@,
                ..self
            },
            EventData::WorkspaceFocused { workspace_id } => Snapshot {
                focused_workspace_id: Some(workspace_id),
                workspaces: Seq::new(
                    self.workspaces.len(),
                    |i: int|
                        WorkspaceInfo {
                            focused: self.workspaces[i].workspace_id@ == workspace_id@,
                            ..self.workspaces[i]
                        },
                ),
                ..self
            },
            EventData::TabCreated { tab } => Snapshot { tabs: upserted(self.tabs, tab), ..self },
            EventData::TabClosed { tab_id } => Snapshot {
                tabs: without(self.tabs, Key::Tab, tab_id@),
                panes: without(self.panes, Key::Tab, tab_id@),
                layouts: without(self.layouts, Key::Tab, tab_id@),
                ..self
            },
            EventData::TabRenamed { tab_id, label } => match entry_from(self.tabs, 0, tab_id@) {
                Some(i) => Snapshot {
                    tabs: self.tabs.update(i, TabInfo { label, ..self.tabs[i] }),
                    ..self
                },
                None => self,
            },
            EventData::TabMoved { workspace_id, tabs } => Snapshot {
                tabs: without(self.tabs, Key::Workspace, workspace_id@) + tabs@,
                ..self
            },
            EventData::TabFocused { tab_id, workspace_id } => Snapshot {
                focused_workspace_id: Some(workspace_id),
                focused_tab_id: Some(tab_id),
                tabs: Seq::new(
                    self.tabs.len(),
                    |i: int|
                        TabInfo { focused: self.tabs[i].tab_id@ == tab_id@, ..self.tabs[i] },
                ),
                ..self
            },
            EventData::PaneCreated { pane } | EventData::PaneUpdated { pane } => Snapshot {
                panes: upserted(self.panes, pane),
                ..self
            },
            EventData::PaneClosed { pane_id } => Snapshot {
                panes: without(self.panes, Key::Own, pane_id@),
                ..self
            },
            EventData::PaneFocused { pane_id, workspace_id } => Snapshot {
                focused_workspace_id: Some(workspace_id),
                focused_pane_id: Some(pane_id),
                focused_tab_id: match entry_from(self.panes, 0, pane_id@) {
                    Some(i) => Some(self.panes[i].tab_id),
                    None => self.focused_tab_id,
                },
                panes: Seq::new(
                    self.panes.len(),
                    |i: int|
                        PaneInfo { focused: self.panes[i].pane_id@ == pane_id@, ..self.panes[i] },
                ),
                ..self
            },
            EventData::PaneMoved {
                previous_pane_id,
                pane,
                created_workspace,
                created_tab,
                closed_workspace_id,
                closed_tab_id,
            } => {
                let workspaces = match created_workspace {
                    Some(workspace) => upserted(self.workspaces, workspace),
                    None => self.workspaces,
                };
                let tabs = match created_tab {
                    Some(tab) => upserted(self.tabs, tab),
                    None => self.tabs,
                };
                Snapshot {
                    panes: upserted(without(self.panes, Key::Own, previous_pane_id@), pane),
                    workspaces: match closed_workspace_id {
                        Some(id) => without(workspaces, Key::Workspace, id@),
                        None => workspaces,
                    },
                    tabs: match closed_tab_id {
                        Some(id) => without(tabs, Key::Tab, id@),
                        None => tabs,
                    },
                    ..self
                }
            },
            EventData::PaneOutputChanged { pane_id, revision } => self.with_changed_pane(
                pane_id@,
                |pane: PaneInfo| PaneInfo { revision, ..pane },
            ),
            EventData::PaneExited { pane_id } => self.with_changed_pane(
                pane_id@,
                |pane: PaneInfo| PaneInfo { agent_status: AgentStatus::Unknown, ..pane },
            ),
            EventData::PaneAgentDetected { pane_id, agent } => self.with_changed_pane(
                pane_id@,
                |pane: PaneInfo| PaneInfo { agent, ..pane },
            ),
            EventData::PaneAgentStatusChanged {
                pane_id,
                agent_status,
                agent,
                title,
                display_agent,
                state_labels,
            } => self.with_changed_pane(
                pane_id@,
                |pane: PaneInfo|
                    PaneInfo { agent_status, agent, title, display_agent, state_labels, ..pane },
            ),
            EventData::LayoutUpdated { layout } => Snapshot {
                layouts: upserted(self.layouts, layout),
                ..self
            },
        }
    }
}

fn reconcile_agents(agents: &mut Vec<AgentInfo>, panes: &Vec<PaneInfo>)
    ensures
        final(agents)@ == with_panes(housed(old(agents)@, panes@), panes@, panes@.len() as int),
{
    let ghost before = agents@;
    let ghost keep = |a: AgentInfo| entry_from(panes@, 0, a.pane_id@) is Some;
    let mut kept: Vec<AgentInfo> = Vec::new();
    let mut i: usize = 0;
    assert(before.take(0).filter(keep) =~= Seq::empty()) by {
        reveal(Seq::filter);
    }
    while i < agents.len()
        invariant
            i <= agents@.len(),
            agents@ == before,
            keep == (|a: AgentInfo| entry_from(panes@, 0, a.pane_id@) is Some),
            kept@ == before.take(i as int).filter(keep),
        decreases agents@.len() - i,
    {
        proof {
            lemma_filter_push(before.take(i as int), before[i as int], keep);
            assert(before.take(i + 1) =~= before.take(i as int).push(before[i as int]));
        }
        if find_entry(panes, agents[i].pane_id.as_str()).is_some() {
            kept.push(agents[i].clone());
        }
        i += 1;
    }
    assert(before.take(i as int) =~= before);
    let ghost base = kept@;
    let mut k: usize = 0;
    while k < panes.len()
        invariant
            k <= panes@.len(),
            kept@ == with_panes(base, panes@, k as int),
        decreases panes@.len() - k,
    {
        let pane = &panes[k];
        match find_entry(&kept, pane.pane_id.as_str()) {
            Some(at) => {
                let current = sync_agent_info_from_pane(&kept[at], pane);
                kept[at] = current;
            },
            None => {
                if pane.agent.is_some() || pane.display_agent.is_some()
                    || pane.agent_session.is_some() {
                    kept.push(agent_info_from_pane(pane));
                }
            },
        }
        k += 1;
    }
    *agents = kept;
}

/// Derives agents and statuses from the panes.
pub fn reconcile_snapshot_agents(snapshot: &mut SessionSnapshot)
    ensures
        final(snapshot)@ == old(snapshot)@.reconciled(),
{
    let ghost before = snapshot@;
    let ghost panes = snapshot.panes@;
    reconcile_agents(&mut snapshot.agents, &snapshot.panes);
    let mut i: usize = 0;
    while i < snapshot.tabs.len()
        invariant
            i <= snapshot.tabs@.len(),
            before == old(snapshot)@,
            panes == before.panes,
            snapshot@ == (Snapshot {
                agents: before.reconciled().agents,
                tabs: Seq::new(
                    before.tabs.len(),
                    |k: int|
                        if k < i {
                            before.reconciled().tabs[k]
                        } else {
                            before.tabs[k]
                        },
                ),
                ..before
            }),
        decreases snapshot.tabs@.len() - i,
    {
        let status = aggregate_status(
            &snapshot.panes,
            Key::Tab,
            snapshot.tabs[i].tab_id.as_str(),
        );
        snapshot.tabs[i].agent_status = status;
        i += 1;
        assert(snapshot.tabs@ =~= Seq::new(
            before.tabs.len(),
            |k: int|
                if k < i {
                    before.reconciled().tabs[k]
                } else {
                    before.tabs[k]
                },
        ));
    }
    assert(snapshot.tabs@ =~= before.reconciled().tabs);
    let mut w: usize = 0;
    while w < snapshot.workspaces.len()
        invariant
            w <= snapshot.workspaces@.len(),
            before == old(snapshot)@,
            panes == before.panes,
            snapshot@ == (Snapshot {
                agents: before.reconciled().agents,
                tabs: before.reconciled().tabs,
                workspaces: Seq::new(
                    before.workspaces.len(),
                    |k: int|
                        if k < w {
                            before.reconciled().workspaces[k]
                        } else {
                            before.workspaces[k]
                        },
                ),
                ..before
            }),
        decreases snapshot.workspaces@.len() - w,
    {
        let status = aggregate_status(
            &snapshot.panes,
            Key::Workspace,
            snapshot.workspaces[w].workspace_id.as_str(),
        );
        snapshot.workspaces[w].agent_status = status;
        w += 1;
        assert(snapshot.workspaces@ =~= Seq::new(
            before.workspaces.len(),
            |k: int|
                if k < w {
                    before.reconciled().workspaces[k]
                } else {
                    before.workspaces[k]
                },
        ));
    }
    assert(snapshot.workspaces@ =~= before.reconciled().workspaces);
}

fn focus_workspace(items: &mut Vec<WorkspaceInfo>, id: &str)
    ensures
        final(items)@ == Seq::new(
            old(items)@.len(),
            |i: int| WorkspaceInfo { focused: old(items)@[i].workspace_id@ == id@, ..old(items)@[i] },
        ),
{
    let ghost before = items@;
    let mut i: usize = 0;
    while i < items.len()
        invariant
            i <= items@.len() == before.len(),
            forall|k: int| i <= k < before.len() ==> items@[k] == before[k],
            forall|k: int|
                0 <= k < i ==> #[trigger] items@[k] == (WorkspaceInfo {
                    focused: before[k].workspace_id@ == id@,
                    ..before[k]
                }),
        decreases items@.len() - i,
    {
        let focused = same_text(items[i].workspace_id.as_str(), id);
        items[i].focused = focused;
        i += 1;
    }
    assert(items@ =~= Seq::new(
        before.len(),
        |i: int| WorkspaceInfo { focused: before[i].workspace_id@ == id@, ..before[i] },
    ));
}

fn focus_tab(items: &mut Vec<TabInfo>, id: &str)
    ensures
        final(items)@ == Seq::new(
            old(items)@.len(),
            |i: int| TabInfo { focused: old(items)@[i].tab_id@ == id@, ..old(items)@[i] },
        ),
{
    let ghost before = items@;
    let mut i: usize = 0;
    while i < items.len()
        invariant
            i <= items@.len() == before.len(),
            forall|k: int| i <= k < before.len() ==> items@[k] == before[k],
            forall|k: int|
                0 <= k < i ==> #[trigger] items@[k] == (TabInfo {
                    focused: before[k].tab_id@ == id@,
                    ..before[k]
                }),
        decreases items@.len() - i,
    {
        let focused = same_text(items[i].tab_id.as_str(), id);
        items[i].focused = focused;
        i += 1;
    }
    assert(items@ =~= Seq::new(
        before.len(),
        |i: int| TabInfo { focused: before[i].tab_id@ == id@, ..before[i] },
    ));
}

fn focus_pane(items: &mut Vec<PaneInfo>, id: &str)
    ensures
        final(items)@ == Seq::new(
            old(items)@.len(),
            |i: int| PaneInfo { focused: old(items)@[i].pane_id@ == id@, ..old(items)@[i] },
        ),
{
    let ghost before = items@;
    let mut i: usize = 0;
    while i < items.len()
        invariant
            i <= items@.len() == before.len(),
            forall|k: int| i <= k < before.len() ==> items@[k] == before[k],
            forall|k: int|
                0 <= k < i ==> #[trigger] items@[k] == (PaneInfo {
                    focused: before[k].pane_id@ == id@,
                    ..before[k]
                }),
        decreases items@.len() - i,
    {
        let focused = same_text(items[i].pane_id.as_str(), id);
        items[i].focused = focused;
        i += 1;
    }
    assert(items@ =~= Seq::new(
        before.len(),
        |i: int| PaneInfo { focused: before[i].pane_id@ == id@, ..before[i] },
    ));
}

fn close_workspace(snapshot: &mut SessionSnapshot, id: &str)
    ensures
        final(snapshot)@ == (Snapshot {
            workspaces: without(old(snapshot)@.workspaces, Key::Workspace, id@),
            tabs: without(old(snapshot)@.tabs, Key::Workspace, id@),
            panes: without(old(snapshot)@.panes, Key::Workspace, id@),
            layouts: without(old(snapshot)@.layouts, Key::Workspace, id@),
            ..old(snapshot)@
        }),
{
    remove_all(&mut snapshot.workspaces, Key::Workspace, id);
    remove_all(&mut snapshot.tabs, Key::Workspace, id);
    remove_all(&mut snapshot.panes, Key::Workspace, id);
    remove_all(&mut snapshot.layouts, Key::Workspace, id);
}

fn change_snapshot(snapshot: &mut SessionSnapshot, event: &EventData)
    ensures
        final(snapshot)@ == old(snapshot)@.changed(*event),
{
    match event {
        EventData::WorkspaceCreated { workspace }
        | EventData::WorkspaceUpdated { workspace }
        | EventData::WorkspaceMetadataUpdated { workspace }
        | EventData::WorktreeCreated { workspace }
        | EventData::WorktreeOpened { workspace } => upsert_workspace(
            &mut snapshot.workspaces,
            workspace.clone(),
        ),
        EventData::WorkspaceClosed { workspace_id } => close_workspace(
            snapshot,
            workspace_id.as_str(),
        ),
        EventData::WorktreeRemoved { workspace_id } => close_workspace(
            snapshot,
            workspace_id.as_str(),
        ),
        EventData::WorkspaceRenamed { workspace_id, label } => {
            if let Some(i) = find_entry(&snapshot.workspaces, workspace_id.as_str()) {
                snapshot.workspaces[i].label = label.clone();
            }
        },
        EventData::WorkspaceMoved { workspaces } => {
            snapshot.workspaces = copied(workspaces);
        },
        EventData::WorkspaceFocused { workspace_id } => {
            snapshot.focused_workspace_id = Some(workspace_id.clone());
            focus_workspace(&mut snapshot.workspaces, workspace_id.as_str());
        },
        EventData::TabCreated { tab } => upsert_tab(&mut snapshot.tabs, tab.clone()),
        EventData::TabClosed { tab_id } => {
            remove_all(&mut snapshot.tabs, Key::Tab, tab_id.as_str());
            remove_all(&mut snapshot.panes, Key::Tab, tab_id.as_str());
            remove_all(&mut snapshot.layouts, Key::Tab, tab_id.as_str());
        },
        EventData::TabRenamed { tab_id, label } => {
            if let Some(i) = find_entry(&snapshot.tabs, tab_id.as_str()) {
                snapshot.tabs[i].label = label.clone();
            }
        },
        EventData::TabMoved { workspace_id, tabs } => {
            remove_all(&mut snapshot.tabs, Key::Workspace, workspace_id.as_str());
            let mut moved = copied(tabs);
            snapshot.tabs.append(&mut moved);
        },
        EventData::TabFocused { tab_id, workspace_id } => {
            snapshot.focused_workspace_id = Some(workspace_id.clone());
            snapshot.focused_tab_id = Some(tab_id.clone());
            focus_tab(&mut snapshot.tabs, tab_id.as_str());
        },
        EventData::PaneCreated { pane } | EventData::PaneUpdated { pane } => upsert_pane(
            &mut snapshot.panes,
            pane.clone(),
        ),
        EventData::PaneClosed { pane_id } => remove_all(
            &mut snapshot.panes,
            Key::Own,
            pane_id.as_str(),
        ),
        EventData::PaneFocused { pane_id, workspace_id } => {
            snapshot.focused_workspace_id = Some(workspace_id.clone());
            snapshot.focused_pane_id = Some(pane_id.clone());
            if let Some(i) = find_entry(&snapshot.panes, pane_id.as_str()) {
                snapshot.focused_tab_id = Some(snapshot.panes[i].tab_id.clone());
            }
            focus_pane(&mut snapshot.panes, pane_id.as_str());
        },
        EventData::PaneMoved {
            previous_pane_id,
            pane,
            created_workspace,
            created_tab,
            closed_workspace_id,
            closed_tab_id,
        } => {
            remove_all(&mut snapshot.panes, Key::Own, previous_pane_id.as_str());
            upsert_pane(&mut snapshot.panes, pane.clone());
            if let Some(workspace) = created_workspace {
                upsert_workspace(&mut snapshot.workspaces, workspace.clone());
            }
            if let Some(tab) = created_tab {
                upsert_tab(&mut snapshot.tabs, tab.clone());
            }
            if let Some(id) = closed_workspace_id {
                remove_all(&mut snapshot.workspaces, Key::Workspace, id.as_str());
            }
            if let Some(id) = closed_tab_id {
                remove_all(&mut snapshot.tabs, Key::Tab, id.as_str());
            }
        },
        EventData::PaneOutputChanged { pane_id, revision } => {
            if let Some(i) = find_entry(&snapshot.panes, pane_id.as_str()) {
                snapshot.panes[i].revision = *revision;
            }
        },
        EventData::PaneExited { pane_id } => {
            if let Some(i) = find_entry(&snapshot.panes, pane_id.as_str()) {
                snapshot.panes[i].agent_status = AgentStatus::Unknown;
            }
        },
        EventData::PaneAgentDetected { pane_id, agent } => {
            if let Some(i) = find_entry(&snapshot.panes, pane_id.as_str()) {
                snapshot.panes[i].agent = same_option(agent);
            }
        },
        EventData::PaneAgentStatusChanged {
            pane_id,
            agent_status,
            agent,
            title,
            display_agent,
            state_labels,
        } => {
            if let Some(i) = find_entry(&snapshot.panes, pane_id.as_str()) {
                snapshot.panes[i].agent_status = *agent_status;
                snapshot.panes[i].agent = same_option(agent);
                snapshot.panes[i].title = same_option(title);
                snapshot.panes[i].display_agent = same_option(display_agent);
                snapshot.panes[i].state_labels = share(state_labels);
            }
        },
        EventData::LayoutUpdated { layout } => upsert_layout(
            &mut snapshot.layouts,
            layout.clone(),
        ),
    }
}

/// Brings a snapshot up to date with an event of its session.
pub fn apply_event(snapshot: &mut SessionSnapshot, envelope: &SequencedEventEnvelope)
    ensures
        final(snapshot)@ == old(snapshot)@.changed(envelope.event).reconciled(),
{
    change_snapshot(snapshot, &envelope.event);
    reconcile_snapshot_agents(snapshot);
}

/// The agent shows what the pane shows.
pub open spec fn mirrors(agent: AgentInfo, pane: PaneInfo) -> bool {
    agent == synced(agent, pane)
}

pub proof fn lemma_entry_from<T: Entry>(s: Seq<T>, i: int, id: Seq<char>)
    requires
        0 <= i <= s.len(),
    ensures
        match entry_from(s, i, id) {
            Some(k) => i <= k < s.len() && s[k].key(Key::Own) == id && forall|j: int|
                i <= j < k ==> (#[trigger] s[j]).key(Key::Own) != id,
            None => forall|j: int| i <= j < s.len() ==> (#[trigger] s[j]).key(Key::Own) != id,
        },
    decreases s.len() - i,
{
    if i < s.len() && s[i].key(Key::Own) != id {
        lemma_entry_from(s, i + 1, id);
    }
}

/// The last of the first `n` panes with an id.
pub open spec fn last_pane(panes: Seq<PaneInfo>, n: int, id: Seq<char>) -> Option<int>
    decreases n,
{
    if n <= 0 {
        None
    } else if panes[n - 1].pane_id@ == id {
        Some(n - 1)
    } else {
        last_pane(panes, n - 1, id)
    }
}

proof fn lemma_last_pane(panes: Seq<PaneInfo>, n: int, id: Seq<char>)
    requires
        0 <= n <= panes.len(),
    ensures
        match last_pane(panes, n, id) {
            Some(k) => 0 <= k < n && panes[k].pane_id@ == id,
            None => forall|k: int| 0 <= k < n ==> (#[trigger] panes[k]).pane_id@ != id,
        },
    decreases n,
{
    if n > 0 {
        lemma_last_pane(panes, n - 1, id);
    }
}

/// The agent at `j` is the first of its pane.
pub open spec fn leads(agents: Seq<AgentInfo>, j: int) -> bool {
    entry_from(agents, 0, agents[j].pane_id@) == Some(j)
}

/// After `n` panes the first agent of each of them shows the last of those with its id, every agent
/// has the pane of an agent before or one of those panes, and each of those panes that shows signs
/// of an agent has one.
proof fn lemma_with_panes(base: Seq<AgentInfo>, panes: Seq<PaneInfo>, n: int)
    requires
        0 <= n <= panes.len(),
    ensures
        forall|j: int|
            #![trigger with_panes(base, panes, n)[j]]
            0 <= j < with_panes(base, panes, n).len() && leads(with_panes(base, panes, n), j) ==> {
                let agent = with_panes(base, panes, n)[j];
                last_pane(panes, n, agent.pane_id@) matches Some(k) ==> mirrors(agent, panes[k])
            },
        forall|j: int|
            #![trigger with_panes(base, panes, n)[j]]
            0 <= j < with_panes(base, panes, n).len() ==> {
                let agent = with_panes(base, panes, n)[j];
                ||| last_pane(panes, n, agent.pane_id@) is Some
                ||| base.contains(agent)
            },
        forall|k: int|
            #![trigger panes[k]]
            0 <= k < n && shows_agent(panes[k]) ==> entry_from(
                with_panes(base, panes, n),
                0,
                panes[k].pane_id@,
            ) is Some,
    decreases n,
{
    if n > 0 {
        lemma_with_panes(base, panes, n - 1);
        let before = with_panes(base, panes, n - 1);
        let after = with_panes(base, panes, n);
        let pane = panes[n - 1];
        lemma_entry_from(before, 0, pane.pane_id@);
        assert forall|j: int| #![trigger after[j]] 0 <= j < after.len() && leads(after, j) implies (
        last_pane(panes, n, after[j].pane_id@) matches Some(k) ==> mirrors(after[j], panes[k])) by {
            let id = after[j].pane_id@;
            lemma_entry_from(after, 0, id);
            if id == pane.pane_id@ {
                match entry_from(before, 0, id) {
                    Some(i) => {
                        assert(after[i].key(Key::Own) == id);
                        if j < i {
                            assert(before[j].key(Key::Own) == id);
                        }
                        assert(mirrors(after[j], pane));
                    },
                    None => {
                        if j < before.len() {
                            assert(before[j].key(Key::Own) == id);
                        }
                        assert(mirrors(after[j], pane));
                    },
                }
            } else {
                assert(j < before.len() && after[j] == before[j]);
                lemma_entry_from(before, 0, id);
                let i = entry_from(before, 0, id)->0;
                assert(before[j].key(Key::Own) == id);
                if i < j {
                    assert(after[i].key(Key::Own) == id);
                }
                assert(leads(before, j));
            }
        }
        assert forall|j: int| #![trigger after[j]] 0 <= j < after.len() implies {
            ||| last_pane(panes, n, after[j].pane_id@) is Some
            ||| base.contains(after[j])
        } by {
            if j < before.len() && after[j] == before[j] {
                assert(last_pane(panes, n - 1, before[j].pane_id@) is Some || base.contains(
                    before[j],
                ));
            }
        }
        assert forall|k: int|
            #![trigger panes[k]]
            0 <= k < n && shows_agent(panes[k]) implies entry_from(after, 0, panes[k].pane_id@) is Some by {
            let id = panes[k].pane_id@;
            lemma_entry_from(before, 0, id);
            lemma_entry_from(after, 0, id);
            if k < n - 1 {
                let j = entry_from(before, 0, id)->0;
                assert(after[j].key(Key::Own) == id);
            } else {
                match entry_from(before, 0, id) {
                    Some(j) => assert(after[j].key(Key::Own) == id),
                    None => assert(after[before.len() as int].key(Key::Own) == id),
                }
            }
        }
    }
}

proof fn lemma_stay_apart(base: Seq<AgentInfo>, panes: Seq<PaneInfo>, n: int)
    requires
        0 <= n <= panes.len(),
        one_agent_per_pane(base),
    ensures
        one_agent_per_pane(with_panes(base, panes, n)),
    decreases n,
{
    if n > 0 {
        lemma_stay_apart(base, panes, n - 1);
        let before = with_panes(base, panes, n - 1);
        let after = with_panes(base, panes, n);
        let pane = panes[n - 1];
        lemma_entry_from(before, 0, pane.pane_id@);
        assert forall|i: int, j: int|
            #![trigger after[i], after[j]]
            0 <= i < j < after.len() implies after[i].pane_id@ != after[j].pane_id@ by {
            if j < before.len() {
                assert(before[i].pane_id@ != before[j].pane_id@);
            } else {
                assert(before[i].key(Key::Own) != pane.pane_id@);
            }
        }
    }
}

/// The agent shows what one of the panes shows.
pub open spec fn mirrors_some(agent: AgentInfo, panes: Seq<PaneInfo>) -> bool {
    exists|k: int| 0 <= k < panes.len() && #[trigger] mirrors(agent, panes[k])
}

/// One of the panes is the agent's.
pub open spec fn has_pane(agent: AgentInfo, panes: Seq<PaneInfo>) -> bool {
    entry_from(panes, 0, agent.pane_id@) is Some
}

/// No two agents are in one pane.
pub open spec fn one_agent_per_pane(agents: Seq<AgentInfo>) -> bool {
    forall|i: int, j: int|
        #![trigger agents[i], agents[j]]
        0 <= i < j < agents.len() ==> agents[i].pane_id@ != agents[j].pane_id@
}

/// In a reconciled snapshot every agent has a pane that exists, the first agent of a pane shows what
/// a pane shows, and every pane with signs of an agent has one. Where no two agents shared a pane,
/// none do, and so every agent shows a pane.
pub proof fn agents_follow_panes(s: Snapshot)
    ensures
        forall|j: int|
            #![trigger s.reconciled().agents[j]]
            0 <= j < s.reconciled().agents.len() ==> has_pane(s.reconciled().agents[j], s.panes),
        forall|j: int|
            #![trigger s.reconciled().agents[j]]
            0 <= j < s.reconciled().agents.len() && leads(s.reconciled().agents, j)
                ==> mirrors_some(s.reconciled().agents[j], s.panes),
        forall|k: int|
            #![trigger s.panes[k]]
            0 <= k < s.panes.len() && shows_agent(s.panes[k]) ==> exists|j: int|
                0 <= j < s.reconciled().agents.len() && (
                #[trigger] s.reconciled().agents[j]).pane_id@ == s.panes[k].pane_id@,
        one_agent_per_pane(s.agents) ==> one_agent_per_pane(s.reconciled().agents) && forall|j: int|
            #![trigger s.reconciled().agents[j]]
            0 <= j < s.reconciled().agents.len() ==> mirrors_some(
                s.reconciled().agents[j],
                s.panes,
            ),
{
    let base = housed(s.agents, s.panes);
    let n = s.panes.len() as int;
    let keep = |a: AgentInfo| entry_from(s.panes, 0, a.pane_id@) is Some;
    lemma_kept(s.agents, keep);
    lemma_with_panes(base, s.panes, n);
    let after = with_panes(base, s.panes, n);
    assert(s.reconciled().agents == after);
    assert forall|j: int| #![trigger after[j]] 0 <= j < after.len() implies has_pane(
        after[j],
        s.panes,
    ) by {
        let id = after[j].pane_id@;
        lemma_last_pane(s.panes, n, id);
        lemma_entry_from(s.panes, 0, id);
        if base.contains(after[j]) {
            assert(keep(after[j]));
        } else {
            let k = last_pane(s.panes, n, id)->0;
            assert(s.panes[k].key(Key::Own) == id);
        }
    }
    assert forall|j: int| #![trigger after[j]] 0 <= j < after.len() && leads(
        after,
        j,
    ) implies mirrors_some(after[j], s.panes) by {
        let id = after[j].pane_id@;
        assert(has_pane(after[j], s.panes));
        lemma_entry_from(s.panes, 0, id);
        lemma_last_pane(s.panes, n, id);
        let first = entry_from(s.panes, 0, id)->0;
        assert(s.panes[first].pane_id@ == id);
        let k = last_pane(s.panes, n, id)->0;
        assert(mirrors(after[j], s.panes[k]));
    }
    assert forall|k: int|
        #![trigger s.panes[k]]
        0 <= k < s.panes.len() && shows_agent(s.panes[k]) implies exists|j: int|
        0 <= j < after.len() && (#[trigger] after[j]).pane_id@ == s.panes[k].pane_id@ by {
        lemma_entry_from(after, 0, s.panes[k].pane_id@);
        let j = entry_from(after, 0, s.panes[k].pane_id@)->0;
        assert(after[j].pane_id@ == s.panes[k].pane_id@);
    }
    if one_agent_per_pane(s.agents) {
        lemma_filter_distinct(s.agents, keep);
        lemma_stay_apart(base, s.panes, n);
        assert forall|j: int| #![trigger after[j]] 0 <= j < after.len() implies mirrors_some(
            after[j],
            s.panes,
        ) by {
            let id = after[j].pane_id@;
            lemma_entry_from(after, 0, id);
            assert(after[j].key(Key::Own) == id);
            let i = entry_from(after, 0, id)->0;
            if i < j {
                assert(after[i].pane_id@ != after[j].pane_id@);
            }
            assert(leads(after, j));
        }
    }
}

pub proof fn lemma_kept<T>(s: Seq<T>, keep: spec_fn(T) -> bool)
    ensures
        forall|x: T| #[trigger] s.filter(keep).contains(x) ==> keep(x) && s.contains(x),
    decreases s.len(),
{
    reveal(Seq::filter);
    if s.len() > 0 {
        let front = s.drop_last();
        lemma_kept(front, keep);
        let kept = front.filter(keep);
        let all = s.filter(keep);
        assert forall|x: T| #[trigger] all.contains(x) implies keep(x) && s.contains(x) by {
            let i = choose|i: int| 0 <= i < all.len() && all[i] == x;
            if i < kept.len() {
                assert(kept[i] == x);
                assert(kept.contains(x));
                let m = choose|m: int| 0 <= m < front.len() && front[m] == x;
                assert(s[m] == x);
            } else {
                assert(s[s.len() - 1] == x);
            }
        }
    }
}

proof fn lemma_filter_distinct(agents: Seq<AgentInfo>, keep: spec_fn(AgentInfo) -> bool)
    requires
        one_agent_per_pane(agents),
    ensures
        one_agent_per_pane(agents.filter(keep)),
    decreases agents.len(),
{
    reveal(Seq::filter);
    if agents.len() > 0 {
        let front = agents.drop_last();
        assert forall|i: int, j: int|
            #![trigger front[i], front[j]]
            0 <= i < j < front.len() implies front[i].pane_id@ != front[j].pane_id@ by {
            assert(agents[i].pane_id@ != agents[j].pane_id@);
        }
        lemma_filter_distinct(front, keep);
        lemma_kept(front, keep);
        let kept = front.filter(keep);
        let all = agents.filter(keep);
        assert forall|i: int, j: int|
            #![trigger all[i], all[j]]
            0 <= i < j < all.len() implies all[i].pane_id@ != all[j].pane_id@ by {
            if j < kept.len() {
                assert(kept[i].pane_id@ != kept[j].pane_id@);
            } else {
                assert(kept.contains(kept[i]));
                let m = choose|m: int| 0 <= m < front.len() && front[m] == kept[i];
                assert(agents[m].pane_id@ != agents[agents.len() - 1].pane_id@);
            }
        }
    }
}

proof fn lemma_most_pressing(panes: Seq<PaneInfo>, n: int, k: Key, id: Seq<char>)
    requires
        0 <= n <= panes.len(),
    ensures
        forall|i: int|
            #![trigger panes[i]]
            0 <= i < n && panes[i].key(k) == id ==> pressure(panes[i].agent_status) <= pressure(
                most_pressing(panes, n, k, id),
            ),
        most_pressing(panes, n, k, id) is Unknown || exists|i: int|
            0 <= i < n && (#[trigger] panes[i]).key(k) == id && panes[i].agent_status
                == most_pressing(panes, n, k, id),
    decreases n,
{
    if n > 0 {
        lemma_most_pressing(panes, n - 1, k, id);
    }
}

/// In a reconciled snapshot a tab shows the most pressing status of its panes: none of them presses
/// more, and one of them has it unless it is unknown.
pub proof fn tab_statuses_follow_panes(s: Snapshot, t: int)
    requires
        0 <= t < s.tabs.len(),
    ensures
        forall|i: int|
            #![trigger s.panes[i]]
            0 <= i < s.panes.len() && s.panes[i].tab_id@ == s.tabs[t].tab_id@ ==> pressure(
                s.panes[i].agent_status,
            ) <= pressure(s.reconciled().tabs[t].agent_status),
        s.reconciled().tabs[t].agent_status is Unknown || exists|i: int|
            0 <= i < s.panes.len() && (#[trigger] s.panes[i]).tab_id@ == s.tabs[t].tab_id@
                && s.panes[i].agent_status == s.reconciled().tabs[t].agent_status,
{
    let n = s.panes.len() as int;
    let id = s.tabs[t].tab_id@;
    lemma_most_pressing(s.panes, n, Key::Tab, id);
    if s.reconciled().tabs[t].agent_status !is Unknown {
        let i = choose|i: int|
            0 <= i < n && (#[trigger] s.panes[i]).key(Key::Tab) == id && s.panes[i].agent_status
                == most_pressing(s.panes, n, Key::Tab, id);
        assert(s.panes[i].tab_id@ == id);
    }
    assert forall|i: int|
        #![trigger s.panes[i]]
        0 <= i < n && s.panes[i].tab_id@ == id implies pressure(s.panes[i].agent_status)
        <= pressure(s.reconciled().tabs[t].agent_status) by {
        assert(s.panes[i].key(Key::Tab) == id);
    }
}

/// In a reconciled snapshot a workspace shows the most pressing status of its panes: none of them presses
/// more, and one of them has it unless it is unknown.
pub proof fn workspace_statuses_follow_panes(s: Snapshot, t: int)
    requires
        0 <= t < s.workspaces.len(),
    ensures
        forall|i: int|
            #![trigger s.panes[i]]
            0 <= i < s.panes.len() && s.panes[i].workspace_id@ == s.workspaces[t].workspace_id@ ==> pressure(
                s.panes[i].agent_status,
            ) <= pressure(s.reconciled().workspaces[t].agent_status),
        s.reconciled().workspaces[t].agent_status is Unknown || exists|i: int|
            0 <= i < s.panes.len() && (#[trigger] s.panes[i]).workspace_id@ == s.workspaces[t].workspace_id@
                && s.panes[i].agent_status == s.reconciled().workspaces[t].agent_status,
{
    let n = s.panes.len() as int;
    let id = s.workspaces[t].workspace_id@;
    lemma_most_pressing(s.panes, n, Key::Workspace, id);
    if s.reconciled().workspaces[t].agent_status !is Unknown {
        let i = choose|i: int|
            0 <= i < n && (#[trigger] s.panes[i]).key(Key::Workspace) == id && s.panes[i].agent_status
                == most_pressing(s.panes, n, Key::Workspace, id);
        assert(s.panes[i].workspace_id@ == id);
    }
    assert forall|i: int|
        #![trigger s.panes[i]]
        0 <= i < n && s.panes[i].workspace_id@ == id implies pressure(s.panes[i].agent_status)
        <= pressure(s.reconciled().workspaces[t].agent_status) by {
        assert(s.panes[i].key(Key::Workspace) == id);
    }
}

proof fn lemma_without_is_gone<T: Entry>(s: Seq<T>, k: Key, id: Seq<char>)
    ensures
        forall|i: int|
            #![trigger without(s, k, id)[i]]
            0 <= i < without(s, k, id).len() ==> without(s, k, id)[i].key(k) != id,
    decreases s.len(),
{
    reveal(Seq::filter);
    if s.len() > 0 {
        lemma_without_is_gone(s.drop_last(), k, id);
    }
}

/// No agent says that it is in a workspace.
pub open spec fn no_agent_in(after: Snapshot, workspace_id: Seq<char>) -> bool {
    forall|i: int|
        0 <= i < after.agents.len() ==> (#[trigger] after.agents[i]).workspace_id@ != workspace_id
}

/// Nothing of a workspace is left: no workspace, tab, pane or layout. Every agent has one of the panes
/// that are left, and the first agent of a pane does not say that it is in the workspace.
pub open spec fn holds_nothing_of(after: Snapshot, workspace_id: Seq<char>) -> bool {
    &&& forall|i: int|
        0 <= i < after.workspaces.len() ==> (#[trigger] after.workspaces[i]).workspace_id@
            != workspace_id
    &&& forall|i: int|
        0 <= i < after.tabs.len() ==> (#[trigger] after.tabs[i]).workspace_id@ != workspace_id
    &&& forall|i: int|
        0 <= i < after.panes.len() ==> (#[trigger] after.panes[i]).workspace_id@ != workspace_id
    &&& forall|i: int|
        0 <= i < after.layouts.len() ==> (#[trigger] after.layouts[i]).workspace_id@ != workspace_id
    &&& forall|i: int|
        0 <= i < after.agents.len() ==> has_pane(#[trigger] after.agents[i], after.panes)
    &&& forall|i: int|
        0 <= i < after.agents.len() && leads(after.agents, i) ==> (
        #[trigger] after.agents[i]).workspace_id@ != workspace_id
}

/// After a workspace was closed, or the worktree of one was removed, nothing of it is left; and no
/// agent says that it is in it, where no two agents shared a pane.
pub proof fn closed_workspaces_leave_nothing(s: Snapshot, workspace_id: String)
    ensures
        one_agent_per_pane(s.agents) ==> no_agent_in(
            s.changed(EventData::WorkspaceClosed { workspace_id }).reconciled(),
            workspace_id@,
        ) && no_agent_in(
            s.changed(EventData::WorktreeRemoved { workspace_id }).reconciled(),
            workspace_id@,
        ),
        holds_nothing_of(
            s.changed(EventData::WorkspaceClosed { workspace_id }).reconciled(),
            workspace_id@,
        ),
        holds_nothing_of(
            s.changed(EventData::WorktreeRemoved { workspace_id }).reconciled(),
            workspace_id@,
        ),
{
    let id = workspace_id@;
    let changed = s.changed(EventData::WorkspaceClosed { workspace_id });
    let after = changed.reconciled();
    lemma_without_is_gone(s.workspaces, Key::Workspace, id);
    lemma_without_is_gone(s.tabs, Key::Workspace, id);
    lemma_without_is_gone(s.panes, Key::Workspace, id);
    lemma_without_is_gone(s.layouts, Key::Workspace, id);
    agents_follow_panes(changed);
    assert forall|i: int| 0 <= i < after.workspaces.len() implies (
    #[trigger] after.workspaces[i]).workspace_id@ != id by {
        assert(changed.workspaces[i].key(Key::Workspace) != id);
    }
    assert forall|i: int| 0 <= i < after.tabs.len() implies (
    #[trigger] after.tabs[i]).workspace_id@ != id by {
        assert(changed.tabs[i].key(Key::Workspace) != id);
    }
    assert forall|i: int| 0 <= i < after.panes.len() implies (
    #[trigger] after.panes[i]).workspace_id@ != id by {
        assert(changed.panes[i].key(Key::Workspace) != id);
    }
    assert forall|i: int| 0 <= i < after.layouts.len() implies (
    #[trigger] after.layouts[i]).workspace_id@ != id by {
        assert(changed.layouts[i].key(Key::Workspace) != id);
    }
    assert forall|i: int| 0 <= i < after.agents.len() implies has_pane(
        #[trigger] after.agents[i],
        after.panes,
    ) by {
        assert(has_pane(changed.reconciled().agents[i], changed.panes));
    }
    assert forall|i: int|
        0 <= i < after.agents.len() && (leads(after.agents, i) || one_agent_per_pane(
            s.agents,
        )) implies (#[trigger] after.agents[i]).workspace_id@ != id by {
        assert(mirrors_some(changed.reconciled().agents[i], changed.panes));
        let k = choose|k: int|
            0 <= k < changed.panes.len() && #[trigger] mirrors(after.agents[i], changed.panes[k]);
        assert(changed.panes[k].key(Key::Workspace) != id);
    }
}

/// A closed pane takes its agents along.
pub proof fn closed_panes_take_their_agent(s: Snapshot, pane_id: String)
    ensures
        ({
            let after = s.changed(EventData::PaneClosed { pane_id }).reconciled();
            forall|i: int|
                0 <= i < after.agents.len() ==> (#[trigger] after.agents[i]).pane_id@ != pane_id@
        }),
{
    let changed = s.changed(EventData::PaneClosed { pane_id });
    let after = changed.reconciled();
    lemma_without_is_gone(s.panes, Key::Own, pane_id@);
    agents_follow_panes(changed);
    assert forall|i: int| 0 <= i < after.agents.len() implies (
    #[trigger] after.agents[i]).pane_id@ != pane_id@ by {
        let id = after.agents[i].pane_id@;
        assert(has_pane(changed.reconciled().agents[i], changed.panes));
        lemma_entry_from(changed.panes, 0, id);
        let k = entry_from(changed.panes, 0, id)->0;
        assert(changed.panes[k].key(Key::Own) != pane_id@);
    }
}

/// Putting an entry in place twice is putting it in place once.
pub proof fn upserting_twice_is_once<T: Entry>(s: Seq<T>, item: T)
    ensures
        upserted(upserted(s, item), item) == upserted(s, item),
{
    let id = item.key(Key::Own);
    let once = upserted(s, item);
    lemma_entry_from(s, 0, id);
    lemma_entry_from(once, 0, id);
    match entry_from(s, 0, id) {
        Some(i) => {
            let k = entry_from(once, 0, id)->0;
            assert(once[i].key(Key::Own) == id);
            if k < i {
                assert(s[k].key(Key::Own) == id);
            }
        },
        None => {
            let k = entry_from(once, 0, id)->0;
            assert(once[s.len() as int].key(Key::Own) == id);
            if k < s.len() {
                assert(s[k].key(Key::Own) == id);
            }
        },
    }
    assert(upserted(once, item) =~= once);
}

proof fn lemma_same_keys<T: Entry>(a: Seq<T>, b: Seq<T>, i: int, id: Seq<char>)
    requires
        a.len() == b.len(),
        0 <= i <= a.len(),
        forall|j: int| 0 <= j < a.len() ==> (#[trigger] a[j]).key(Key::Own) == b[j].key(Key::Own),
    ensures
        entry_from(a, i, id) == entry_from(b, i, id),
    decreases a.len() - i,
{
    if i < a.len() {
        assert(a[i].key(Key::Own) == b[i].key(Key::Own));
        lemma_same_keys(a, b, i + 1, id);
    }
}

/// What a second look at the panes does to agents that followed them: the first `m` panes leave each
/// agent as the last of them with its id describes it.
proof fn lemma_second_look(agents: Seq<AgentInfo>, panes: Seq<PaneInfo>, m: int)
    requires
        0 <= m <= panes.len(),
        forall|k: int|
            #![trigger panes[k]]
            0 <= k < panes.len() && shows_agent(panes[k]) ==> entry_from(
                agents,
                0,
                panes[k].pane_id@,
            ) is Some,
    ensures
        with_panes(agents, panes, m).len() == agents.len(),
        forall|j: int|
            #![trigger with_panes(agents, panes, m)[j]]
            0 <= j < agents.len() ==> with_panes(agents, panes, m)[j] == (match last_pane(
                panes,
                m,
                agents[j].pane_id@,
            ) {
                Some(k) if leads(agents, j) => synced(agents[j], panes[k]),
                _ => agents[j],
            }),
    decreases m,
{
    if m > 0 {
        lemma_second_look(agents, panes, m - 1);
        let before = with_panes(agents, panes, m - 1);
        let after = with_panes(agents, panes, m);
        let pane = panes[m - 1];
        assert forall|j: int| 0 <= j < before.len() implies (#[trigger] before[j]).key(Key::Own)
            == agents[j].key(Key::Own) by {
            lemma_last_pane(panes, m - 1, agents[j].pane_id@);
        }
        lemma_same_keys(before, agents, 0, pane.pane_id@);
        lemma_entry_from(agents, 0, pane.pane_id@);
        assert(after.len() == agents.len());
        assert forall|j: int| #![trigger after[j]] 0 <= j < agents.len() implies after[j] == (
        match last_pane(panes, m, agents[j].pane_id@) {
            Some(k) if leads(agents, j) => synced(agents[j], panes[k]),
            _ => agents[j],
        }) by {
            let id = agents[j].pane_id@;
            lemma_entry_from(agents, 0, id);
            assert(agents[j].key(Key::Own) == id);
            assert(before[j] == (match last_pane(panes, m - 1, id) {
                Some(k) if leads(agents, j) => synced(agents[j], panes[k]),
                _ => agents[j],
            }));
        }
    }
}

/// Agents and statuses that follow the panes stay as they are.
pub proof fn reconciling_twice_is_once(s: Snapshot)
    ensures
        s.reconciled().reconciled() == s.reconciled(),
{
    let panes = s.panes;
    let n = panes.len() as int;
    let once = s.reconciled();
    let base = housed(s.agents, panes);
    let agents = once.agents;
    agents_follow_panes(s);
    lemma_with_panes(base, panes, n);
    lemma_all_kept(agents, |a: AgentInfo| entry_from(panes, 0, a.pane_id@) is Some);
    assert(housed(agents, panes) == agents);
    lemma_second_look(agents, panes, n);
    let again = with_panes(agents, panes, n);
    assert(again =~= agents) by {
        assert forall|j: int| 0 <= j < agents.len() implies again[j] == agents[j] by {
            if leads(agents, j) {
                assert(leads(with_panes(base, panes, n), j));
            }
        }
    }
    assert(once.reconciled() =~= once);
}

proof fn lemma_all_kept<T>(s: Seq<T>, keep: spec_fn(T) -> bool)
    requires
        forall|i: int| 0 <= i < s.len() ==> keep(#[trigger] s[i]),
    ensures
        s.filter(keep) == s,
    decreases s.len(),
{
    reveal(Seq::filter);
    if s.len() > 0 {
        let front = s.drop_last();
        assert forall|i: int| 0 <= i < front.len() implies keep(#[trigger] front[i]) by {
            assert(keep(s[i]));
        }
        lemma_all_kept(front, keep);
        assert(keep(s[s.len() - 1]));
        assert(front.push(s.last()) =~= s);
    }
}

proof fn lemma_none_kept<T>(s: Seq<T>, keep: spec_fn(T) -> bool)
    requires
        forall|i: int| 0 <= i < s.len() ==> !keep(#[trigger] s[i]),
    ensures
        s.filter(keep) == Seq::<T>::empty(),
    decreases s.len(),
{
    reveal(Seq::filter);
    if s.len() > 0 {
        let front = s.drop_last();
        assert forall|i: int| 0 <= i < front.len() implies !keep(#[trigger] front[i]) by {
            assert(!keep(s[i]));
        }
        lemma_none_kept(front, keep);
        assert(!keep(s[s.len() - 1]));
    }
}

proof fn lemma_filter_map<T>(s: Seq<T>, keep: spec_fn(T) -> bool, f: spec_fn(T) -> T)
    requires
        forall|x: T| keep(#[trigger] f(x)) == keep(x),
    ensures
        s.map_values(f).filter(keep) == s.filter(keep).map_values(f),
    decreases s.len(),
{
    reveal(Seq::filter);
    if s.len() > 0 {
        lemma_filter_map(s.drop_last(), keep, f);
        assert(s.map_values(f).drop_last() =~= s.drop_last().map_values(f));
        assert(s.map_values(f).last() == f(s.last()));
    }
    assert(s.map_values(f).filter(keep) =~= s.filter(keep).map_values(f));
}

proof fn lemma_without_twice<T: Entry>(s: Seq<T>, k: Key, id: Seq<char>)
    ensures
        without(without(s, k, id), k, id) == without(s, k, id),
{
    lemma_without_is_gone(s, k, id);
    let once = without(s, k, id);
    let keep = lacks::<T>(k, id);
    assert forall|i: int| 0 <= i < once.len() implies keep(#[trigger] once[i]) by {
        assert(once[i].key(k) != id);
    }
    lemma_all_kept(once, keep);
}

/// Removing entries leaves an entry the first of its id, unless the entry goes too.
proof fn lemma_stays_first<T: Entry>(s: Seq<T>, item: T, k: Key, id: Seq<char>)
    requires
        entry_from(s, 0, item.key(Key::Own)) matches Some(i) && s[i] == item,
        item.key(k) != id,
    ensures
        upserted(without(s, k, id), item) == without(s, k, id),
{
    let own = item.key(Key::Own);
    let keep = lacks::<T>(k, id);
    lemma_entry_from(s, 0, own);
    let i = entry_from(s, 0, own)->0;
    let head = s.take(i);
    let tail = s.skip(i + 1);
    assert(s =~= head + (seq![item] + tail));
    Seq::filter_distributes_over_add(head, seq![item] + tail, keep);
    Seq::filter_distributes_over_add(seq![item], tail, keep);
    assert(seq![item].filter(keep) =~= seq![item]) by {
        lemma_all_kept(seq![item], keep);
    }
    let kept = head.filter(keep);
    let all = without(s, k, id);
    assert(all =~= kept + (seq![item] + tail.filter(keep)));
    lemma_kept(head, keep);
    assert forall|j: int| 0 <= j < kept.len() implies (#[trigger] all[j]).key(Key::Own) != own by {
        assert(kept.contains(kept[j]));
        let m = choose|m: int| 0 <= m < head.len() && head[m] == kept[j];
        assert(s[m].key(Key::Own) != own);
    }
    assert(all[kept.len() as int] == item);
    lemma_entry_from(all, 0, own);
    assert(all.update(kept.len() as int, item) =~= all);
}

/// Replacing what an entry with an id is, and then removing some, comes to the same when it is done
/// twice: `k` tells entries apart as their own id does.
proof fn lemma_put_and_remove_twice<T: Entry>(s: Seq<T>, item: T, k: Key, id: Seq<char>)
    requires
        forall|x: T| #[trigger] x.key(k) == x.key(Key::Own),
    ensures
        ({
            let once = without(upserted(s, item), k, id);
            without(upserted(once, item), k, id) == once
        }),
{
    let put = upserted(s, item);
    let once = without(put, k, id);
    lemma_without_twice(put, k, id);
    lemma_without_is_gone(put, k, id);
    if item.key(k) == id {
        lemma_entry_from(once, 0, id);
        let keep = lacks::<T>(k, id);
        if let Some(i) = entry_from(once, 0, id) {
            assert(once[i].key(k) == once[i].key(Key::Own));
        }
        assert(upserted(once, item) == once.push(item));
        lemma_filter_push(once, item, keep);
    } else {
        lemma_upserted_is_first(s, item);
        lemma_stays_first(put, item, k, id);
    }
}

/// Removing the entries with an id, and then putting one in place, comes to the same when it is done
/// twice.
proof fn lemma_remove_and_put_twice<T: Entry>(s: Seq<T>, item: T, id: Seq<char>)
    ensures
        ({
            let once = upserted(without(s, Key::Own, id), item);
            upserted(without(once, Key::Own, id), item) == once
        }),
{
    let rest = without(s, Key::Own, id);
    let once = upserted(rest, item);
    let keep = lacks::<T>(Key::Own, id);
    lemma_without_twice(s, Key::Own, id);
    lemma_without_is_gone(s, Key::Own, id);
    lemma_entry_from(rest, 0, item.key(Key::Own));
    if item.key(Key::Own) == id {
        assert(once == rest.push(item));
        lemma_filter_push(rest, item, keep);
        assert(without(once, Key::Own, id) == rest);
    } else {
        assert forall|i: int| 0 <= i < once.len() implies keep(#[trigger] once[i]) by {
            if once[i] != item {
                assert(rest[i].key(Key::Own) != id);
            }
        }
        lemma_all_kept(once, keep);
        upserting_twice_is_once(rest, item);
    }
}

proof fn lemma_upserted_is_first<T: Entry>(s: Seq<T>, item: T)
    ensures
        entry_from(upserted(s, item), 0, item.key(Key::Own)) matches Some(i) && upserted(
            s,
            item,
        )[i] == item,
{
    let id = item.key(Key::Own);
    let once = upserted(s, item);
    lemma_entry_from(s, 0, id);
    lemma_entry_from(once, 0, id);
    match entry_from(s, 0, id) {
        Some(i) => {
            assert(once[i].key(Key::Own) == id);
            let k = entry_from(once, 0, id)->0;
            if k < i {
                assert(s[k].key(Key::Own) == id);
            }
        },
        None => {
            assert(once[s.len() as int].key(Key::Own) == id);
            let k = entry_from(once, 0, id)->0;
            if k < s.len() {
                assert(s[k].key(Key::Own) == id);
            }
        },
    }
}

/// Every tab that a tab move lists is in the workspace it names.
pub open spec fn lists_its_own(event: EventData) -> bool {
    event matches EventData::TabMoved { workspace_id, tabs } ==> forall|i: int|
        0 <= i < tabs@.len() ==> (#[trigger] tabs@[i]).workspace_id@ == workspace_id@
}

proof fn lemma_tab_move_twice(s: Seq<TabInfo>, tabs: Seq<TabInfo>, id: Seq<char>)
    requires
        forall|i: int| 0 <= i < tabs.len() ==> (#[trigger] tabs[i]).workspace_id@ == id,
    ensures
        ({
            let once = without(s, Key::Workspace, id) + tabs;
            without(once, Key::Workspace, id) + tabs == once
        }),
{
    let keep = lacks::<TabInfo>(Key::Workspace, id);
    let rest = without(s, Key::Workspace, id);
    Seq::filter_distributes_over_add(rest, tabs, keep);
    lemma_without_twice(s, Key::Workspace, id);
    assert forall|i: int| 0 <= i < tabs.len() implies !keep(#[trigger] tabs[i]) by {
        assert(tabs[i].workspace_id@ == id);
    }
    lemma_none_kept(tabs, keep);
    assert(rest + Seq::<TabInfo>::empty() =~= rest);
}

proof fn lemma_changed_pane_twice(
    s: Snapshot,
    id: Seq<char>,
    change: spec_fn(PaneInfo) -> PaneInfo,
)
    requires
        forall|p: PaneInfo| #[trigger] change(p).pane_id == p.pane_id,
        forall|p: PaneInfo| change(#[trigger] change(p)) == change(p),
    ensures
        s.with_changed_pane(id, change).with_changed_pane(id, change) == s.with_changed_pane(
            id,
            change,
        ),
{
    let once = s.with_changed_pane(id, change);
    lemma_entry_from(s.panes, 0, id);
    if let Some(i) = entry_from(s.panes, 0, id) {
        assert forall|j: int| 0 <= j < once.panes.len() implies (
        #[trigger] once.panes[j]).key(Key::Own) == s.panes[j].key(Key::Own) by {
            assert(change(s.panes[j]).pane_id == s.panes[j].pane_id);
        }
        lemma_same_keys(once.panes, s.panes, 0, id);
        assert(once.with_changed_pane(id, change).panes =~= once.panes);
    }
}

#[verifier::spinoff_prover]
proof fn lemma_changed_twice(s: Snapshot, event: EventData)
    requires
        lists_its_own(event),
    ensures
        s.changed(event).changed(event) == s.changed(event),
{
    let once = s.changed(event);
    match event {
        EventData::WorkspaceCreated { workspace }
        | EventData::WorkspaceUpdated { workspace }
        | EventData::WorkspaceMetadataUpdated { workspace }
        | EventData::WorktreeCreated { workspace }
        | EventData::WorktreeOpened { workspace } => {
            upserting_twice_is_once(s.workspaces, workspace);
        },
        EventData::WorkspaceClosed { workspace_id } | EventData::WorktreeRemoved {
            workspace_id,
        } => {
            lemma_without_twice(s.workspaces, Key::Workspace, workspace_id@);
            lemma_without_twice(s.tabs, Key::Workspace, workspace_id@);
            lemma_without_twice(s.panes, Key::Workspace, workspace_id@);
            lemma_without_twice(s.layouts, Key::Workspace, workspace_id@);
        },
        EventData::WorkspaceRenamed { workspace_id, .. } => {
            lemma_entry_from(s.workspaces, 0, workspace_id@);
            lemma_same_keys(once.workspaces, s.workspaces, 0, workspace_id@);
            assert(once.changed(event).workspaces =~= once.workspaces);
        },
        EventData::WorkspaceMoved { .. } => {},
        EventData::WorkspaceFocused { .. } => {
            assert(once.changed(event).workspaces =~= once.workspaces);
        },
        EventData::TabCreated { tab } => {
            upserting_twice_is_once(s.tabs, tab);
        },
        EventData::TabClosed { tab_id } => {
            lemma_without_twice(s.tabs, Key::Tab, tab_id@);
            lemma_without_twice(s.panes, Key::Tab, tab_id@);
            lemma_without_twice(s.layouts, Key::Tab, tab_id@);
        },
        EventData::TabRenamed { tab_id, .. } => {
            lemma_entry_from(s.tabs, 0, tab_id@);
            lemma_same_keys(once.tabs, s.tabs, 0, tab_id@);
            assert(once.changed(event).tabs =~= once.tabs);
        },
        EventData::TabMoved { workspace_id, tabs } => {
            lemma_tab_move_twice(s.tabs, tabs@, workspace_id@);
        },
        EventData::TabFocused { .. } => {
            assert(once.changed(event).tabs =~= once.tabs);
        },
        EventData::PaneCreated { pane } | EventData::PaneUpdated { pane } => {
            upserting_twice_is_once(s.panes, pane);
        },
        EventData::PaneClosed { pane_id } => {
            lemma_without_twice(s.panes, Key::Own, pane_id@);
        },
        EventData::PaneFocused { pane_id, .. } => {
            lemma_entry_from(s.panes, 0, pane_id@);
            lemma_same_keys(once.panes, s.panes, 0, pane_id@);
            assert(once.changed(event).panes =~= once.panes);
        },
        EventData::PaneMoved {
            previous_pane_id,
            pane,
            created_workspace,
            created_tab,
            closed_workspace_id,
            closed_tab_id,
        } => {
            lemma_remove_and_put_twice(s.panes, pane, previous_pane_id@);
            match (created_workspace, closed_workspace_id) {
                (Some(workspace), Some(id)) => {
                    lemma_put_and_remove_twice(s.workspaces, workspace, Key::Workspace, id@);
                },
                (Some(workspace), None) => upserting_twice_is_once(s.workspaces, workspace),
                (None, Some(id)) => lemma_without_twice(s.workspaces, Key::Workspace, id@),
                (None, None) => {},
            }
            match (created_tab, closed_tab_id) {
                (Some(tab), Some(id)) => {
                    lemma_put_and_remove_twice(s.tabs, tab, Key::Tab, id@);
                },
                (Some(tab), None) => upserting_twice_is_once(s.tabs, tab),
                (None, Some(id)) => lemma_without_twice(s.tabs, Key::Tab, id@),
                (None, None) => {},
            }
        },
        EventData::PaneOutputChanged { pane_id, revision } => {
            let change = |pane: PaneInfo| PaneInfo { revision, ..pane };
            lemma_changed_pane_twice(s, pane_id@, change);
        },
        EventData::PaneExited { pane_id } => {
            let change = |pane: PaneInfo| PaneInfo { agent_status: AgentStatus::Unknown, ..pane };
            lemma_changed_pane_twice(s, pane_id@, change);
        },
        EventData::PaneAgentDetected { pane_id, agent } => {
            let change = |pane: PaneInfo| PaneInfo { agent, ..pane };
            lemma_changed_pane_twice(s, pane_id@, change);
        },
        EventData::PaneAgentStatusChanged {
            pane_id,
            agent_status,
            agent,
            title,
            display_agent,
            state_labels,
        } => {
            let change = |pane: PaneInfo|
                PaneInfo { agent_status, agent, title, display_agent, state_labels, ..pane };
            lemma_changed_pane_twice(s, pane_id@, change);
        },
        EventData::LayoutUpdated { layout } => {
            upserting_twice_is_once(s.layouts, layout);
        },
    }
}

spec fn quiet_tab() -> spec_fn(TabInfo) -> TabInfo {
    |tab: TabInfo| TabInfo { agent_status: AgentStatus::Unknown, ..tab }
}

spec fn quiet_workspace() -> spec_fn(WorkspaceInfo) -> WorkspaceInfo {
    |workspace: WorkspaceInfo| WorkspaceInfo { agent_status: AgentStatus::Unknown, ..workspace }
}

impl Snapshot {
    /// The snapshot without the statuses of its tabs and workspaces.
    closed spec fn quiet(self) -> Snapshot {
        Snapshot {
            tabs: self.tabs.map_values(quiet_tab()),
            workspaces: self.workspaces.map_values(quiet_workspace()),
            ..self
        }
    }
}

proof fn lemma_quiet_upserted<T: Entry>(s: Seq<T>, item: T, f: spec_fn(T) -> T)
    requires
        forall|x: T| #![trigger f(x)] f(x).key(Key::Own) == x.key(Key::Own),
        forall|x: T| f(#[trigger] f(x)) == f(x),
    ensures
        upserted(s.map_values(f), item).map_values(f) == upserted(s, item).map_values(f),
{
    let id = item.key(Key::Own);
    let quiet = s.map_values(f);
    assert forall|j: int| 0 <= j < quiet.len() implies (#[trigger] quiet[j]).key(Key::Own)
        == s[j].key(Key::Own) by {
        assert(quiet[j] == f(s[j]));
    }
    lemma_same_keys(quiet, s, 0, id);
    lemma_entry_from(s, 0, id);
    assert(upserted(quiet, item).map_values(f) =~= upserted(s, item).map_values(f));
}

proof fn lemma_quiet_without<T: Entry>(s: Seq<T>, k: Key, id: Seq<char>, f: spec_fn(T) -> T)
    requires
        forall|x: T| #![trigger f(x)] f(x).key(k) == x.key(k),
        forall|x: T| f(#[trigger] f(x)) == f(x),
    ensures
        without(s.map_values(f), k, id) == without(s, k, id).map_values(f),
        without(s.map_values(f), k, id).map_values(f) == without(s, k, id).map_values(f),
{
    let keep = lacks::<T>(k, id);
    lemma_filter_map(s, keep, f);
    assert(without(s.map_values(f), k, id).map_values(f) =~= without(s, k, id).map_values(f));
}

#[verifier::spinoff_prover]
proof fn lemma_quiet_change(s: Snapshot, event: EventData)
    ensures
        s.quiet().changed(event).quiet() == s.changed(event).quiet(),
{
    let ft = quiet_tab();
    let fw = quiet_workspace();
    let quiet = s.quiet();
    let a = quiet.changed(event);
    let b = s.changed(event);
    match event {
        EventData::WorkspaceCreated { workspace }
        | EventData::WorkspaceUpdated { workspace }
        | EventData::WorkspaceMetadataUpdated { workspace }
        | EventData::WorktreeCreated { workspace }
        | EventData::WorktreeOpened { workspace } => {
            lemma_quiet_upserted(s.workspaces, workspace, fw);
        },
        EventData::WorkspaceClosed { workspace_id } | EventData::WorktreeRemoved {
            workspace_id,
        } => {
            lemma_quiet_without(s.workspaces, Key::Workspace, workspace_id@, fw);
            lemma_quiet_without(s.tabs, Key::Workspace, workspace_id@, ft);
        },
        EventData::WorkspaceRenamed { workspace_id, .. } => {
            lemma_entry_from(s.workspaces, 0, workspace_id@);
            lemma_same_keys(quiet.workspaces, s.workspaces, 0, workspace_id@);
        },
        EventData::TabCreated { tab } => {
            lemma_quiet_upserted(s.tabs, tab, ft);
        },
        EventData::TabClosed { tab_id } => {
            lemma_quiet_without(s.tabs, Key::Tab, tab_id@, ft);
        },
        EventData::TabRenamed { tab_id, .. } => {
            lemma_entry_from(s.tabs, 0, tab_id@);
            lemma_same_keys(quiet.tabs, s.tabs, 0, tab_id@);
        },
        EventData::TabMoved { workspace_id, .. } => {
            lemma_quiet_without(s.tabs, Key::Workspace, workspace_id@, ft);
        },
        EventData::PaneMoved {
            created_workspace,
            created_tab,
            closed_workspace_id,
            closed_tab_id,
            ..
        } => {
            lemma_quiet_edit(s.workspaces, created_workspace, closed_workspace_id, Key::Workspace, fw);
            lemma_quiet_edit(s.tabs, created_tab, closed_tab_id, Key::Tab, ft);
        },
        _ => {},
    }
    assert(a.quiet().workspaces =~= b.quiet().workspaces);
    assert(a.quiet().tabs =~= b.quiet().tabs);
}

spec fn edited<T: Entry>(s: Seq<T>, put: Option<T>, gone: Option<String>, k: Key) -> Seq<T> {
    let more = match put {
        Some(item) => upserted(s, item),
        None => s,
    };
    match gone {
        Some(id) => without(more, k, id@),
        None => more,
    }
}

proof fn lemma_quiet_edit<T: Entry>(
    s: Seq<T>,
    put: Option<T>,
    gone: Option<String>,
    k: Key,
    f: spec_fn(T) -> T,
)
    requires
        forall|x: T| #![trigger f(x)] f(x).key(k) == x.key(k),
        forall|x: T| #![trigger f(x)] f(x).key(Key::Own) == x.key(Key::Own),
        forall|x: T| f(#[trigger] f(x)) == f(x),
    ensures
        edited(s.map_values(f), put, gone, k).map_values(f) == edited(s, put, gone, k).map_values(f),
{
    let quiet = s.map_values(f);
    let a = match put {
        Some(item) => upserted(quiet, item),
        None => quiet,
    };
    let b = match put {
        Some(item) => upserted(s, item),
        None => s,
    };
    if let Some(item) = put {
        lemma_quiet_upserted(s, item, f);
    }
    assert(a.map_values(f) =~= b.map_values(f));
    if let Some(id) = gone {
        lemma_quiet_without(a, k, id@, f);
        lemma_quiet_without(b, k, id@, f);
    }
}

proof fn lemma_quiet_reconciled(s: Snapshot)
    ensures
        s.quiet().reconciled() == s.reconciled(),
        s.reconciled().quiet() == (Snapshot { agents: s.reconciled().agents, ..s.quiet() }),
{
    assert(s.quiet().reconciled() =~= s.reconciled());
    assert(s.reconciled().quiet() =~= (Snapshot { agents: s.reconciled().agents, ..s.quiet() }));
}

#[verifier::spinoff_prover]
proof fn lemma_change_leaves_agents(s: Snapshot, event: EventData, agents: Seq<AgentInfo>)
    ensures
        (Snapshot { agents, ..s }).changed(event).quiet() == (Snapshot {
            agents,
            ..s.changed(event).quiet()
        }),
{
    assert((Snapshot { agents, ..s }).changed(event) == (Snapshot { agents, ..s.changed(event) }));
}

#[verifier::spinoff_prover]
proof fn lemma_change_leaves_the_rest(s: Snapshot, event: EventData)
    ensures
        s.changed(event).identity == s.identity,
        s.changed(event).version == s.version,
        s.changed(event).protocol == s.protocol,
        s.changed(event).event_cursor == s.event_cursor,
        s.changed(event).archived_agents == s.archived_agents,
{
}

/// An event that comes twice does what it does once, and no event touches what the session is, its
/// version and protocol, its cursor or its archived agents. A tab move that lists a tab of another
/// workspace is excepted: it adds that tab each time.
pub proof fn events_apply_once(s: Snapshot, event: EventData)
    requires
        lists_its_own(event),
    ensures
        ({
            let once = s.changed(event).reconciled();
            &&& once.changed(event).reconciled() == once
            &&& once.identity == s.identity
            &&& once.version == s.version
            &&& once.protocol == s.protocol
            &&& once.event_cursor == s.event_cursor
            &&& once.archived_agents == s.archived_agents
        }),
{
    let x = s.changed(event);
    let once = x.reconciled();
    let twice = once.changed(event);
    lemma_quiet_reconciled(x);
    lemma_quiet_reconciled(once);
    lemma_quiet_reconciled(twice);
    lemma_quiet_change(once, event);
    lemma_quiet_change(x, event);
    lemma_changed_twice(s, event);
    lemma_change_leaves_agents(x.quiet(), event, once.agents);
    assert(twice.quiet() == once.quiet());
    reconciling_twice_is_once(x);
    lemma_change_leaves_the_rest(s, event);
}

} // verus!
