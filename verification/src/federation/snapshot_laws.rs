//! What every event does to the snapshot of a watched session, list by list.

use crate::federation::projection::{
    agents_follow_panes, entry_from, housed, lacks, lemma_entry_from, lemma_kept, mirrors,
    mirrors_some, most_pressing, one_agent_per_pane, shows_agent, upserted, with_panes, Entry, Key,
};
use crate::schema::{
    AgentInfo, AgentStatus, EventData, Label, PaneInfo, PaneLayoutSnapshot, Snapshot, TabInfo,
    WorkspaceInfo,
};
use std::sync::Arc;
use vstd::prelude::*;

verus! {

/// The tabs, their statuses aside.
pub open spec fn tabs_aside(tabs: Seq<TabInfo>) -> Seq<TabInfo> {
    Seq::new(tabs.len(), |i: int| TabInfo { agent_status: AgentStatus::Unknown, ..tabs[i] })
}

/// The workspaces, their statuses aside.
pub open spec fn workspaces_aside(workspaces: Seq<WorkspaceInfo>) -> Seq<WorkspaceInfo> {
    Seq::new(
        workspaces.len(),
        |i: int| WorkspaceInfo { agent_status: AgentStatus::Unknown, ..workspaces[i] },
    )
}

/// The snapshot after an event.
pub open spec fn told(s: Snapshot, event: EventData) -> Snapshot {
    s.changed(event).reconciled()
}

/// The lists that an event leaves alone, statuses aside, and what is focused.
pub open spec fn keeps(
    s: Snapshot,
    after: Snapshot,
    workspaces: bool,
    tabs: bool,
    panes: bool,
    layouts: bool,
    focus: bool,
) -> bool {
    &&& workspaces ==> workspaces_aside(after.workspaces) == workspaces_aside(s.workspaces)
    &&& tabs ==> tabs_aside(after.tabs) == tabs_aside(s.tabs)
    &&& panes ==> after.panes == s.panes
    &&& layouts ==> after.layouts == s.layouts
    &&& focus ==> after.focused_workspace_id == s.focused_workspace_id && after.focused_tab_id
        == s.focused_tab_id && after.focused_pane_id == s.focused_pane_id
}

/// The first element with a property.
pub open spec fn first_of<T>(items: Seq<T>, i: int, fits: spec_fn(T) -> bool) -> bool {
    &&& 0 <= i < items.len()
    &&& fits(items[i])
    &&& forall|j: int| 0 <= j < i ==> !fits(#[trigger] items[j])
}

pub open spec fn none_of<T>(items: Seq<T>, fits: spec_fn(T) -> bool) -> bool {
    forall|j: int| 0 <= j < items.len() ==> !fits(#[trigger] items[j])
}

/// The item stands in place of the first element with the property, or behind all where none has it.
pub open spec fn put_in<T>(
    before: Seq<T>,
    after: Seq<T>,
    item: T,
    fits: spec_fn(T) -> bool,
) -> bool {
    ||| none_of(before, fits) && after == before.push(item)
    ||| exists|i: int| #[trigger] first_of(before, i, fits) && after == before.update(i, item)
}

/// The first element with the property is changed and the others stay; where none has it, all stay.
pub open spec fn changed_in<T>(
    before: Seq<T>,
    after: Seq<T>,
    fits: spec_fn(T) -> bool,
    change: spec_fn(T) -> T,
) -> bool {
    ||| none_of(before, fits) && after == before
    ||| exists|i: int| #[trigger]
        first_of(before, i, fits) && after == before.update(i, change(before[i]))
}

pub open spec fn workspace_is(id: Seq<char>) -> spec_fn(WorkspaceInfo) -> bool {
    |w: WorkspaceInfo| w.workspace_id@ == id
}

pub open spec fn tab_is(id: Seq<char>) -> spec_fn(TabInfo) -> bool {
    |t: TabInfo| t.tab_id@ == id
}

pub open spec fn pane_is(id: Seq<char>) -> spec_fn(PaneInfo) -> bool {
    |p: PaneInfo| p.pane_id@ == id
}

pub open spec fn layout_is(id: Seq<char>) -> spec_fn(PaneLayoutSnapshot) -> bool {
    |p: PaneLayoutSnapshot| p.tab_id@ == id
}

pub open spec fn workspace_is_not(id: Seq<char>) -> spec_fn(WorkspaceInfo) -> bool {
    |w: WorkspaceInfo| w.workspace_id@ != id
}

pub open spec fn tab_is_not(id: Seq<char>) -> spec_fn(TabInfo) -> bool {
    |t: TabInfo| t.tab_id@ != id
}

pub open spec fn pane_is_not(id: Seq<char>) -> spec_fn(PaneInfo) -> bool {
    |p: PaneInfo| p.pane_id@ != id
}

pub open spec fn tab_is_elsewhere(workspace_id: Seq<char>) -> spec_fn(TabInfo) -> bool {
    |t: TabInfo| t.workspace_id@ != workspace_id
}

pub open spec fn pane_is_elsewhere(workspace_id: Seq<char>) -> spec_fn(PaneInfo) -> bool {
    |p: PaneInfo| p.workspace_id@ != workspace_id
}

pub open spec fn layout_is_elsewhere(workspace_id: Seq<char>) -> spec_fn(
    PaneLayoutSnapshot,
) -> bool {
    |p: PaneLayoutSnapshot| p.workspace_id@ != workspace_id
}

pub open spec fn pane_is_off(tab_id: Seq<char>) -> spec_fn(PaneInfo) -> bool {
    |p: PaneInfo| p.tab_id@ != tab_id
}

pub open spec fn layout_is_off(tab_id: Seq<char>) -> spec_fn(PaneLayoutSnapshot) -> bool {
    |p: PaneLayoutSnapshot| p.tab_id@ != tab_id
}

/// Agents and statuses follow the panes; everything else stays.
pub proof fn reconciling_keeps_the_rest(s: Snapshot)
    ensures
        keeps(s, s.reconciled(), true, true, true, true, true),
        s.reconciled().identity == s.identity,
        s.reconciled().version == s.version,
        s.reconciled().protocol == s.protocol,
        s.reconciled().event_cursor == s.event_cursor,
        s.reconciled().archived_agents == s.archived_agents,
{
    let after = s.reconciled();
    assert(tabs_aside(after.tabs) =~= tabs_aside(s.tabs));
    assert(workspaces_aside(after.workspaces) =~= workspaces_aside(s.workspaces));
}

proof fn lemma_upserted<T: Entry>(s: Seq<T>, item: T, fits: spec_fn(T) -> bool)
    requires
        forall|x: T| #[trigger] fits(x) == (x.key(Key::Own) == item.key(Key::Own)),
    ensures
        put_in(s, upserted(s, item), item, fits),
{
    lemma_entry_from(s, 0, item.key(Key::Own));
    match entry_from(s, 0, item.key(Key::Own)) {
        Some(i) => {
            assert(first_of(s, i, fits));
        },
        None => {
            assert(none_of(s, fits));
        },
    }
}

/// A workspace that is created, updated or opened stands in the list as it is told, in place of the
/// one with its id or behind the others; nothing else is touched.
pub proof fn workspaces_are_put_in_place(s: Snapshot, workspace: WorkspaceInfo, event: EventData)
    requires
        event == (EventData::WorkspaceCreated { workspace }) || event == (
        EventData::WorkspaceUpdated { workspace }) || event == (
        EventData::WorkspaceMetadataUpdated { workspace }) || event == (EventData::WorktreeCreated {
            workspace,
        }) || event == (EventData::WorktreeOpened { workspace }),
    ensures
        put_in(
            workspaces_aside(s.workspaces),
            workspaces_aside(told(s, event).workspaces),
            WorkspaceInfo { agent_status: AgentStatus::Unknown, ..workspace },
            workspace_is(workspace.workspace_id@),
        ),
        keeps(s, told(s, event), false, true, true, true, true),
{
    let fits = workspace_is(workspace.workspace_id@);
    let plain = WorkspaceInfo { agent_status: AgentStatus::Unknown, ..workspace };
    let changed = s.changed(event);
    reconciling_keeps_the_rest(changed);
    lemma_upserted(s.workspaces, workspace, fits);
    let before = workspaces_aside(s.workspaces);
    let after = workspaces_aside(changed.workspaces);
    if none_of(s.workspaces, fits) && changed.workspaces == s.workspaces.push(workspace) {
        assert forall|j: int| 0 <= j < before.len() implies !fits(#[trigger] before[j]) by {
            assert(!fits(s.workspaces[j]));
        }
        assert(after =~= before.push(plain));
    } else {
        let i = choose|i: int| #[trigger]
            first_of(s.workspaces, i, fits) && changed.workspaces == s.workspaces.update(
                i,
                workspace,
            );
        assert forall|j: int| 0 <= j < i implies !fits(#[trigger] before[j]) by {
            assert(!fits(s.workspaces[j]));
        }
        assert(first_of(before, i, fits));
        assert(after =~= before.update(i, plain));
    }
}

/// As for workspaces, of a tab.
pub proof fn tabs_are_put_in_place(s: Snapshot, tab: TabInfo)
    ensures
        ({
            let after = told(s, EventData::TabCreated { tab });
            &&& put_in(
                tabs_aside(s.tabs),
                tabs_aside(after.tabs),
                TabInfo { agent_status: AgentStatus::Unknown, ..tab },
                tab_is(tab.tab_id@),
            )
            &&& keeps(s, after, true, false, true, true, true)
        }),
{
    let fits = tab_is(tab.tab_id@);
    let plain = TabInfo { agent_status: AgentStatus::Unknown, ..tab };
    let changed = s.changed(EventData::TabCreated { tab });
    reconciling_keeps_the_rest(changed);
    lemma_upserted(s.tabs, tab, fits);
    let before = tabs_aside(s.tabs);
    let after = tabs_aside(changed.tabs);
    if none_of(s.tabs, fits) && changed.tabs == s.tabs.push(tab) {
        assert forall|j: int| 0 <= j < before.len() implies !fits(#[trigger] before[j]) by {
            assert(!fits(s.tabs[j]));
        }
        assert(after =~= before.push(plain));
    } else {
        let i = choose|i: int| #[trigger]
            first_of(s.tabs, i, fits) && changed.tabs == s.tabs.update(i, tab);
        assert forall|j: int| 0 <= j < i implies !fits(#[trigger] before[j]) by {
            assert(!fits(s.tabs[j]));
        }
        assert(first_of(before, i, fits));
        assert(after =~= before.update(i, plain));
    }
}

/// As for workspaces, of a pane that is created or updated.
pub proof fn panes_are_put_in_place(s: Snapshot, pane: PaneInfo)
    ensures
        ({
            let created = told(s, EventData::PaneCreated { pane });
            let updated = told(s, EventData::PaneUpdated { pane });
            let fits = pane_is(pane.pane_id@);
            &&& put_in(s.panes, created.panes, pane, fits)
            &&& put_in(s.panes, updated.panes, pane, fits)
            &&& keeps(s, created, true, true, false, true, true)
            &&& keeps(s, updated, true, true, false, true, true)
        }),
{
    reconciling_keeps_the_rest(s.changed(EventData::PaneCreated { pane }));
    reconciling_keeps_the_rest(s.changed(EventData::PaneUpdated { pane }));
    lemma_upserted(s.panes, pane, pane_is(pane.pane_id@));
}

/// As for workspaces, of a tab's layout.
pub proof fn layouts_are_put_in_place(s: Snapshot, layout: PaneLayoutSnapshot)
    ensures
        ({
            let after = told(s, EventData::LayoutUpdated { layout });
            &&& put_in(
                s.layouts,
                after.layouts,
                layout,
                layout_is(layout.tab_id@),
            )
            &&& keeps(s, after, true, true, true, false, true)
        }),
{
    reconciling_keeps_the_rest(s.changed(EventData::LayoutUpdated { layout }));
    lemma_upserted(s.layouts, layout, layout_is(layout.tab_id@));
}

proof fn lemma_same_filter<T>(s: Seq<T>, a: spec_fn(T) -> bool, b: spec_fn(T) -> bool)
    requires
        forall|x: T| #[trigger] a(x) == b(x),
    ensures
        s.filter(a) == s.filter(b),
{
    assert(a =~= b);
}

proof fn lemma_aside_tabs(tabs: Seq<TabInfo>, keep: spec_fn(TabInfo) -> bool)
    requires
        forall|t: TabInfo| #[trigger]
            keep(t) == keep(TabInfo { agent_status: AgentStatus::Unknown, ..t }),
    ensures
        tabs_aside(tabs.filter(keep)) == tabs_aside(tabs).filter(keep),
    decreases tabs.len(),
{
    reveal(Seq::filter);
    if tabs.len() > 0 {
        let front = tabs.drop_last();
        lemma_aside_tabs(front, keep);
        assert(tabs_aside(tabs).drop_last() =~= tabs_aside(front));
        assert(keep(tabs.last()) == keep(tabs_aside(tabs).last()));
    }
    assert(tabs_aside(tabs.filter(keep)) =~= tabs_aside(tabs).filter(keep));
}

proof fn lemma_aside_workspaces(
    workspaces: Seq<WorkspaceInfo>,
    keep: spec_fn(WorkspaceInfo) -> bool,
)
    requires
        forall|w: WorkspaceInfo| #[trigger]
            keep(w) == keep(WorkspaceInfo { agent_status: AgentStatus::Unknown, ..w }),
    ensures
        workspaces_aside(workspaces.filter(keep)) == workspaces_aside(workspaces).filter(keep),
    decreases workspaces.len(),
{
    reveal(Seq::filter);
    if workspaces.len() > 0 {
        let front = workspaces.drop_last();
        lemma_aside_workspaces(front, keep);
        assert(workspaces_aside(workspaces).drop_last() =~= workspaces_aside(front));
        assert(keep(workspaces.last()) == keep(workspaces_aside(workspaces).last()));
    }
    assert(workspaces_aside(workspaces.filter(keep)) =~= workspaces_aside(workspaces).filter(
        keep,
    ));
}

/// A closed tab takes its panes and its layout along, and no others: what is left are, in their
/// order, the tabs, panes and layouts of other tabs. The workspaces stay.
pub proof fn closed_tabs_take_their_panes(s: Snapshot, tab_id: String)
    ensures
        ({
            let after = told(s, EventData::TabClosed { tab_id });
            &&& after.panes == s.panes.filter(pane_is_off(tab_id@))
            &&& after.layouts == s.layouts.filter(layout_is_off(tab_id@))
            &&& tabs_aside(after.tabs) == tabs_aside(s.tabs).filter(
                tab_is_not(tab_id@),
            )
            &&& keeps(s, after, true, false, false, false, true)
        }),
{
    let changed = s.changed(EventData::TabClosed { tab_id });
    reconciling_keeps_the_rest(changed);
    let id = tab_id@;
    lemma_same_filter(s.panes, lacks(Key::Tab, id), pane_is_off(id));
    lemma_same_filter(s.layouts, lacks(Key::Tab, id), layout_is_off(id));
    lemma_same_filter(s.tabs, lacks(Key::Tab, id), tab_is_not(id));
    lemma_aside_tabs(s.tabs, tab_is_not(id));
}

/// No pane of a closed tab is left, no layout and no tab with its id; where no two agents shared a
/// pane, no agent says that it is in it.
pub proof fn closed_tabs_leave_nothing(s: Snapshot, tab_id: String)
    ensures
        ({
            let after = told(s, EventData::TabClosed { tab_id });
            &&& forall|i: int|
                0 <= i < after.panes.len() ==> (#[trigger] after.panes[i]).tab_id@ != tab_id@
            &&& forall|i: int|
                0 <= i < after.layouts.len() ==> (#[trigger] after.layouts[i]).tab_id@ != tab_id@
            &&& forall|i: int|
                0 <= i < after.tabs.len() ==> (#[trigger] after.tabs[i]).tab_id@ != tab_id@
            &&& (forall|i: int, j: int|
                #![trigger s.agents[i], s.agents[j]]
                0 <= i < j < s.agents.len() ==> s.agents[i].pane_id@ != s.agents[j].pane_id@)
                ==> forall|i: int|
                0 <= i < after.agents.len() ==> (#[trigger] after.agents[i]).tab_id@ != tab_id@
        }),
{
    let changed = s.changed(EventData::TabClosed { tab_id });
    let after = told(s, EventData::TabClosed { tab_id });
    closed_tabs_take_their_panes(s, tab_id);
    let keep_pane = pane_is_off(tab_id@);
    let keep_layout = layout_is_off(tab_id@);
    let keep_tab = tab_is_not(tab_id@);
    lemma_kept(s.panes, keep_pane);
    lemma_kept(s.layouts, keep_layout);
    lemma_kept(tabs_aside(s.tabs), keep_tab);
    assert forall|i: int| 0 <= i < after.panes.len() implies (#[trigger] after.panes[i]).tab_id@
        != tab_id@ by {
        assert(s.panes.filter(keep_pane).contains(after.panes[i]));
        assert(keep_pane(after.panes[i]));
    }
    assert forall|i: int| 0 <= i < after.layouts.len() implies (#[trigger] after.layouts[i]).tab_id@
        != tab_id@ by {
        assert(s.layouts.filter(keep_layout).contains(after.layouts[i]));
        assert(keep_layout(after.layouts[i]));
    }
    assert forall|i: int| 0 <= i < after.tabs.len() implies (#[trigger] after.tabs[i]).tab_id@
        != tab_id@ by {
        let plain = tabs_aside(after.tabs)[i];
        assert(tabs_aside(s.tabs).filter(keep_tab).contains(plain));
        assert(keep_tab(plain));
    }
    if one_agent_per_pane(s.agents) {
        agents_follow_panes(changed);
        assert forall|i: int| 0 <= i < after.agents.len() implies (
        #[trigger] after.agents[i]).tab_id@ != tab_id@ by {
            assert(mirrors_some(
                changed.reconciled().agents[i],
                changed.panes,
            ));
            let k = choose|k: int|
                0 <= k < changed.panes.len() && #[trigger] mirrors(
                    after.agents[i],
                    changed.panes[k],
                );
            assert(after.panes[k].tab_id@ != tab_id@);
        }
    }
}

/// A closed workspace, or one whose worktree was removed, takes its tabs, panes and layouts along,
/// and no others.
pub proof fn closed_workspaces_take_their_tabs(s: Snapshot, workspace_id: String, event: EventData)
    requires
        event == (EventData::WorkspaceClosed { workspace_id }) || event == (
        EventData::WorktreeRemoved { workspace_id }),
    ensures
        ({
            let after = told(s, event);
            let id = workspace_id@;
            &&& after.panes == s.panes.filter(pane_is_elsewhere(id))
            &&& after.layouts == s.layouts.filter(layout_is_elsewhere(id))
            &&& tabs_aside(after.tabs) == tabs_aside(s.tabs).filter(
                tab_is_elsewhere(id),
            )
            &&& workspaces_aside(after.workspaces) == workspaces_aside(s.workspaces).filter(
                workspace_is_not(id),
            )
            &&& keeps(s, after, false, false, false, false, true)
        }),
{
    let changed = s.changed(event);
    reconciling_keeps_the_rest(changed);
    let id = workspace_id@;
    lemma_same_filter(s.panes, lacks(Key::Workspace, id), pane_is_elsewhere(id));
    lemma_same_filter(
        s.layouts,
        lacks(Key::Workspace, id),
        layout_is_elsewhere(id),
    );
    lemma_same_filter(
        s.workspaces,
        lacks(Key::Workspace, id),
        workspace_is_not(id),
    );
    lemma_same_filter(s.tabs, lacks(Key::Workspace, id), tab_is_elsewhere(id));
    lemma_aside_tabs(s.tabs, tab_is_elsewhere(id));
    lemma_aside_workspaces(s.workspaces, workspace_is_not(id));
}

/// A closed pane is gone, and only it: the other panes stay in their order, and so does everything
/// that is not derived from panes.
pub proof fn closed_panes_are_gone(s: Snapshot, pane_id: String)
    ensures
        ({
            let after = told(s, EventData::PaneClosed { pane_id });
            &&& after.panes == s.panes.filter(pane_is_not(pane_id@))
            &&& keeps(s, after, true, true, false, true, true)
        }),
{
    reconciling_keeps_the_rest(s.changed(EventData::PaneClosed { pane_id }));
    lemma_same_filter(
        s.panes,
        lacks(Key::Own, pane_id@),
        pane_is_not(pane_id@),
    );
}

proof fn lemma_first<T: Entry>(items: Seq<T>, id: Seq<char>, fits: spec_fn(T) -> bool)
    requires
        forall|x: T| #[trigger] fits(x) == (x.key(Key::Own) == id),
    ensures
        match entry_from(items, 0, id) {
            Some(i) => first_of(items, i, fits),
            None => none_of(items, fits),
        },
{
    lemma_entry_from(items, 0, id);
}

pub open spec fn with_revision(revision: u64) -> spec_fn(PaneInfo) -> PaneInfo {
    |p: PaneInfo| PaneInfo { revision, ..p }
}

pub open spec fn with_status(agent_status: AgentStatus) -> spec_fn(PaneInfo) -> PaneInfo {
    |p: PaneInfo| PaneInfo { agent_status, ..p }
}

pub open spec fn with_agent(agent: Option<String>) -> spec_fn(PaneInfo) -> PaneInfo {
    |p: PaneInfo| PaneInfo { agent, ..p }
}

pub open spec fn with_description(
    agent_status: AgentStatus,
    agent: Option<String>,
    title: Option<String>,
    display_agent: Option<String>,
    state_labels: Arc<Vec<Label>>,
) -> spec_fn(PaneInfo) -> PaneInfo {
    |p: PaneInfo| PaneInfo { agent_status, agent, title, display_agent, state_labels, ..p }
}

/// What is told of a pane changes that pane and no other, and of it only what is told: its revision,
/// its agent, its status with what describes it; a pane that exited has no known status.
pub proof fn panes_are_changed_as_told(
    s: Snapshot,
    pane_id: String,
    revision: u64,
    agent_status: AgentStatus,
    agent: Option<String>,
    title: Option<String>,
    display_agent: Option<String>,
    state_labels: Arc<Vec<Label>>,
)
    ensures
        ({
            let fits = pane_is(pane_id@);
            let output = told(s, EventData::PaneOutputChanged { pane_id, revision });
            let exited = told(s, EventData::PaneExited { pane_id });
            let detected = told(s, EventData::PaneAgentDetected { pane_id, agent });
            let status = told(
                s,
                EventData::PaneAgentStatusChanged {
                    pane_id,
                    agent_status,
                    agent,
                    title,
                    display_agent,
                    state_labels,
                },
            );
            &&& changed_in(s.panes, output.panes, fits, with_revision(revision))
            &&& changed_in(s.panes, exited.panes, fits, with_status(AgentStatus::Unknown))
            &&& changed_in(s.panes, detected.panes, fits, with_agent(agent))
            &&& changed_in(
                s.panes,
                status.panes,
                fits,
                with_description(agent_status, agent, title, display_agent, state_labels),
            )
            &&& keeps(s, output, true, true, false, true, true)
            &&& keeps(s, exited, true, true, false, true, true)
            &&& keeps(s, detected, true, true, false, true, true)
            &&& keeps(s, status, true, true, false, true, true)
        }),
{
    reconciling_keeps_the_rest(s.changed(EventData::PaneOutputChanged { pane_id, revision }));
    reconciling_keeps_the_rest(s.changed(EventData::PaneExited { pane_id }));
    reconciling_keeps_the_rest(s.changed(EventData::PaneAgentDetected { pane_id, agent }));
    reconciling_keeps_the_rest(
        s.changed(
            EventData::PaneAgentStatusChanged {
                pane_id,
                agent_status,
                agent,
                title,
                display_agent,
                state_labels,
            },
        ),
    );
    lemma_first(s.panes, pane_id@, pane_is(pane_id@));
}

pub open spec fn workspace_called(label: String) -> spec_fn(WorkspaceInfo) -> WorkspaceInfo {
    |w: WorkspaceInfo| WorkspaceInfo { label, ..w }
}

pub open spec fn tab_called(label: String) -> spec_fn(TabInfo) -> TabInfo {
    |t: TabInfo| TabInfo { label, ..t }
}

/// A renamed workspace or tab has its new label; nothing else changes.
pub proof fn renames_change_the_label(s: Snapshot, id: String, label: String)
    ensures
        ({
            let workspace = told(s, EventData::WorkspaceRenamed { workspace_id: id, label });
            let tab = told(s, EventData::TabRenamed { tab_id: id, label });
            &&& changed_in(
                workspaces_aside(s.workspaces),
                workspaces_aside(workspace.workspaces),
                workspace_is(id@),
                workspace_called(label),
            )
            &&& changed_in(tabs_aside(s.tabs), tabs_aside(tab.tabs), tab_is(id@), tab_called(label))
            &&& keeps(s, workspace, false, true, true, true, true)
            &&& keeps(s, tab, true, false, true, true, true)
        }),
{
    let w = s.changed(EventData::WorkspaceRenamed { workspace_id: id, label });
    let t = s.changed(EventData::TabRenamed { tab_id: id, label });
    reconciling_keeps_the_rest(w);
    reconciling_keeps_the_rest(t);
    lemma_first(s.workspaces, id@, workspace_is(id@));
    lemma_first(s.tabs, id@, tab_is(id@));
    let before = workspaces_aside(s.workspaces);
    match entry_from(s.workspaces, 0, id@) {
        Some(i) => {
            assert forall|j: int| 0 <= j < i implies !workspace_is(id@)(#[trigger] before[j]) by {
                assert(!workspace_is(id@)(s.workspaces[j]));
            }
            assert(first_of(before, i, workspace_is(id@)));
            assert(workspaces_aside(w.workspaces) =~= before.update(
                i,
                workspace_called(label)(before[i]),
            ));
        },
        None => {
            assert forall|j: int| 0 <= j < before.len() implies !workspace_is(id@)(
                #[trigger] before[j],
            ) by {
                assert(!workspace_is(id@)(s.workspaces[j]));
            }
        },
    }
    let tabs = tabs_aside(s.tabs);
    match entry_from(s.tabs, 0, id@) {
        Some(i) => {
            assert forall|j: int| 0 <= j < i implies !tab_is(id@)(#[trigger] tabs[j]) by {
                assert(!tab_is(id@)(s.tabs[j]));
            }
            assert(first_of(tabs, i, tab_is(id@)));
            assert(tabs_aside(t.tabs) =~= tabs.update(i, tab_called(label)(tabs[i])));
        },
        None => {
            assert forall|j: int| 0 <= j < tabs.len() implies !tab_is(id@)(#[trigger] tabs[j]) by {
                assert(!tab_is(id@)(s.tabs[j]));
            }
        },
    }
}

/// Moved workspaces stand as they are listed. Moved tabs of a workspace stand, as they are listed,
/// behind the tabs of the other workspaces.
pub proof fn moves_reorder(
    s: Snapshot,
    workspaces: Vec<WorkspaceInfo>,
    workspace_id: String,
    tabs: Vec<TabInfo>,
)
    ensures
        ({
            let w = told(s, EventData::WorkspaceMoved { workspaces });
            let t = told(s, EventData::TabMoved { workspace_id, tabs });
            &&& workspaces_aside(w.workspaces) == workspaces_aside(workspaces@)
            &&& tabs_aside(t.tabs) == tabs_aside(s.tabs).filter(tab_is_elsewhere(workspace_id@))
                + tabs_aside(tabs@)
            &&& keeps(s, w, false, true, true, true, true)
            &&& keeps(s, t, true, false, true, true, true)
        }),
{
    let t = s.changed(EventData::TabMoved { workspace_id, tabs });
    reconciling_keeps_the_rest(s.changed(EventData::WorkspaceMoved { workspaces }));
    reconciling_keeps_the_rest(t);
    let id = workspace_id@;
    lemma_same_filter(s.tabs, lacks(Key::Workspace, id), tab_is_elsewhere(id));
    lemma_aside_tabs(s.tabs, tab_is_elsewhere(id));
    assert(tabs_aside(t.tabs) =~= tabs_aside(s.tabs.filter(tab_is_elsewhere(id))) + tabs_aside(
        tabs@,
    ));
}

/// Focus moves to what is told: exactly the entries with that id are focused, the ids of what is
/// focused follow, and a focused pane brings its tab along. Nothing else changes.
pub proof fn focus_moves_as_told(s: Snapshot, id: String, workspace_id: String)
    ensures
        ({
            let w = told(s, EventData::WorkspaceFocused { workspace_id: id });
            let t = told(s, EventData::TabFocused { tab_id: id, workspace_id });
            let p = told(s, EventData::PaneFocused { pane_id: id, workspace_id });
            &&& w.focused_workspace_id == Some(id)
            &&& w.focused_tab_id == s.focused_tab_id && w.focused_pane_id == s.focused_pane_id
            &&& t.focused_workspace_id == Some(workspace_id) && t.focused_tab_id == Some(id)
            &&& t.focused_pane_id == s.focused_pane_id
            &&& p.focused_workspace_id == Some(workspace_id) && p.focused_pane_id == Some(id)
            &&& none_of(s.panes, pane_is(id@)) ==> p.focused_tab_id == s.focused_tab_id
            &&& forall|i: int| #[trigger]
                first_of(s.panes, i, pane_is(id@)) ==> p.focused_tab_id == Some(s.panes[i].tab_id)
            &&& w.workspaces.len() == s.workspaces.len()
            &&& t.tabs.len() == s.tabs.len()
            &&& p.panes.len() == s.panes.len()
            &&& forall|i: int|
                #![trigger w.workspaces[i]]
                0 <= i < s.workspaces.len() ==> w.workspaces[i] == (WorkspaceInfo {
                    focused: s.workspaces[i].workspace_id@ == id@,
                    agent_status: w.workspaces[i].agent_status,
                    ..s.workspaces[i]
                })
            &&& forall|i: int|
                #![trigger t.tabs[i]]
                0 <= i < s.tabs.len() ==> t.tabs[i] == (TabInfo {
                    focused: s.tabs[i].tab_id@ == id@,
                    agent_status: t.tabs[i].agent_status,
                    ..s.tabs[i]
                })
            &&& forall|i: int|
                #![trigger p.panes[i]]
                0 <= i < s.panes.len() ==> p.panes[i] == (PaneInfo {
                    focused: s.panes[i].pane_id@ == id@,
                    ..s.panes[i]
                })
            &&& keeps(s, w, false, true, true, true, false)
            &&& keeps(s, t, true, false, true, true, false)
            &&& keeps(s, p, true, true, false, true, false)
        }),
{
    let p = s.changed(EventData::PaneFocused { pane_id: id, workspace_id });
    reconciling_keeps_the_rest(s.changed(EventData::WorkspaceFocused { workspace_id: id }));
    reconciling_keeps_the_rest(s.changed(EventData::TabFocused { tab_id: id, workspace_id }));
    reconciling_keeps_the_rest(p);
    lemma_entry_from(s.panes, 0, id@);
    assert forall|i: int| #[trigger] first_of(s.panes, i, pane_is(id@)) implies p.focused_tab_id
        == Some(s.panes[i].tab_id) by {
        assert(s.panes[i].key(Key::Own) == id@);
        let k = entry_from(s.panes, 0, id@)->0;
        if k < i {
            assert(!pane_is(id@)(s.panes[k]));
        }
    }
    if none_of(s.panes, pane_is(id@)) && entry_from(s.panes, 0, id@) is Some {
        let k = entry_from(s.panes, 0, id@)->0;
        assert(!pane_is(id@)(s.panes[k]));
    }
}

/// The workspaces after one was made, if any.
pub open spec fn made_workspace(
    before: Seq<WorkspaceInfo>,
    after: Seq<WorkspaceInfo>,
    made: Option<WorkspaceInfo>,
) -> bool {
    match made {
        Some(workspace) => put_in(before, after, workspace, workspace_is(workspace.workspace_id@)),
        None => after == before,
    }
}

pub open spec fn made_tab(
    before: Seq<TabInfo>,
    after: Seq<TabInfo>,
    made: Option<TabInfo>,
) -> bool {
    match made {
        Some(tab) => put_in(before, after, tab, tab_is(tab.tab_id@)),
        None => after == before,
    }
}

/// A moved pane is gone under its old id and stands as it is told under its new one. What was made
/// for it is put in place, and then what it left empty is gone.
pub proof fn moved_panes_change_place(
    s: Snapshot,
    previous_pane_id: String,
    pane: PaneInfo,
    created_workspace: Option<WorkspaceInfo>,
    created_tab: Option<TabInfo>,
    closed_workspace_id: Option<String>,
    closed_tab_id: Option<String>,
)
    ensures
        ({
            let after = told(
                s,
                EventData::PaneMoved {
                    previous_pane_id,
                    pane,
                    created_workspace,
                    created_tab,
                    closed_workspace_id,
                    closed_tab_id,
                },
            );
            &&& put_in(
                s.panes.filter(pane_is_not(previous_pane_id@)),
                after.panes,
                pane,
                pane_is(pane.pane_id@),
            )
            &&& exists|workspaces: Seq<WorkspaceInfo>| #[trigger]
                made_workspace(s.workspaces, workspaces, created_workspace) && workspaces_aside(
                    after.workspaces,
                ) == workspaces_aside(
                    match closed_workspace_id {
                        Some(id) => workspaces.filter(workspace_is_not(id@)),
                        None => workspaces,
                    },
                )
            &&& exists|tabs: Seq<TabInfo>| #[trigger]
                made_tab(s.tabs, tabs, created_tab) && tabs_aside(after.tabs) == tabs_aside(
                    match closed_tab_id {
                        Some(id) => tabs.filter(tab_is_not(id@)),
                        None => tabs,
                    },
                )
            &&& keeps(s, after, false, false, false, true, true)
        }),
{
    let changed = s.changed(
        EventData::PaneMoved {
            previous_pane_id,
            pane,
            created_workspace,
            created_tab,
            closed_workspace_id,
            closed_tab_id,
        },
    );
    reconciling_keeps_the_rest(changed);
    let left = s.panes.filter(pane_is_not(previous_pane_id@));
    lemma_same_filter(s.panes, lacks(Key::Own, previous_pane_id@), pane_is_not(previous_pane_id@));
    lemma_upserted(left, pane, pane_is(pane.pane_id@));
    let workspaces = match created_workspace {
        Some(workspace) => upserted(s.workspaces, workspace),
        None => s.workspaces,
    };
    if let Some(workspace) = created_workspace {
        lemma_upserted(s.workspaces, workspace, workspace_is(workspace.workspace_id@));
    }
    assert(made_workspace(s.workspaces, workspaces, created_workspace));
    if let Some(id) = closed_workspace_id {
        lemma_same_filter(workspaces, lacks(Key::Workspace, id@), workspace_is_not(id@));
    }
    let tabs = match created_tab {
        Some(tab) => upserted(s.tabs, tab),
        None => s.tabs,
    };
    if let Some(tab) = created_tab {
        lemma_upserted(s.tabs, tab, tab_is(tab.tab_id@));
    }
    assert(made_tab(s.tabs, tabs, created_tab));
    if let Some(id) = closed_tab_id {
        lemma_same_filter(tabs, lacks(Key::Tab, id@), tab_is_not(id@));
    }
}

/// One of the panes that have a property has a status.
pub open spec fn some_pane(
    panes: Seq<PaneInfo>,
    fits: spec_fn(PaneInfo) -> bool,
    status: AgentStatus,
) -> bool {
    exists|i: int| 0 <= i < panes.len() && fits(#[trigger] panes[i]) && panes[i].agent_status == status
}

/// The status of a group of panes: blocked if one of them is, else done if one is, else working if
/// one is, else idle if one is, else unknown.
pub open spec fn group_status(panes: Seq<PaneInfo>, fits: spec_fn(PaneInfo) -> bool) -> AgentStatus {
    if some_pane(panes, fits, AgentStatus::Blocked) {
        AgentStatus::Blocked
    } else if some_pane(panes, fits, AgentStatus::Done) {
        AgentStatus::Done
    } else if some_pane(panes, fits, AgentStatus::Working) {
        AgentStatus::Working
    } else if some_pane(panes, fits, AgentStatus::Idle) {
        AgentStatus::Idle
    } else {
        AgentStatus::Unknown
    }
}

pub open spec fn pane_is_in_tab(tab_id: Seq<char>) -> spec_fn(PaneInfo) -> bool {
    |p: PaneInfo| p.tab_id@ == tab_id
}

pub open spec fn pane_is_in_workspace(workspace_id: Seq<char>) -> spec_fn(PaneInfo) -> bool {
    |p: PaneInfo| p.workspace_id@ == workspace_id
}

proof fn lemma_group_status(
    panes: Seq<PaneInfo>,
    n: int,
    k: Key,
    id: Seq<char>,
    fits: spec_fn(PaneInfo) -> bool,
)
    requires
        0 <= n <= panes.len(),
        forall|p: PaneInfo| #[trigger] fits(p) == (p.key(k) == id),
    ensures
        most_pressing(panes, n, k, id) == group_status(panes.take(n), fits),
    decreases n,
{
    if n > 0 {
        lemma_group_status(panes, n - 1, k, id, fits);
        let before = panes.take(n - 1);
        let now = panes.take(n);
        let last = panes[n - 1];
        assert(now[n - 1] == last);
        assert forall|status: AgentStatus| #[trigger]
            some_pane(now, fits, status) == (some_pane(before, fits, status) || (fits(last)
                && last.agent_status == status)) by {
            if some_pane(before, fits, status) {
                let i = choose|i: int|
                    0 <= i < before.len() && fits(#[trigger] before[i]) && before[i].agent_status
                        == status;
                assert(now[i] == before[i]);
            }
            if some_pane(now, fits, status) {
                let i = choose|i: int|
                    0 <= i < now.len() && fits(#[trigger] now[i]) && now[i].agent_status == status;
                if i < n - 1 {
                    assert(before[i] == now[i]);
                }
            }
        }
        assert(some_pane(now, fits, last.agent_status) == (some_pane(before, fits, last.agent_status)
            || fits(last)));
    }
}

/// After every event each tab and each workspace shows the status of its panes.
pub proof fn statuses_sum_up_the_panes(s: Snapshot, event: EventData)
    ensures
        ({
            let after = told(s, event);
            &&& forall|i: int|
                #![trigger after.tabs[i]]
                0 <= i < after.tabs.len() ==> after.tabs[i].agent_status == group_status(
                    after.panes,
                    pane_is_in_tab(after.tabs[i].tab_id@),
                )
            &&& forall|i: int|
                #![trigger after.workspaces[i]]
                0 <= i < after.workspaces.len() ==> after.workspaces[i].agent_status
                    == group_status(
                    after.panes,
                    pane_is_in_workspace(after.workspaces[i].workspace_id@),
                )
        }),
{
    let changed = s.changed(event);
    let after = told(s, event);
    let n = changed.panes.len() as int;
    assert(changed.panes.take(n) =~= changed.panes);
    assert forall|i: int|
        #![trigger after.tabs[i]]
        0 <= i < after.tabs.len() implies after.tabs[i].agent_status == group_status(
        after.panes,
        pane_is_in_tab(after.tabs[i].tab_id@),
    ) by {
        let id = changed.tabs[i].tab_id@;
        lemma_group_status(changed.panes, n, Key::Tab, id, pane_is_in_tab(id));
    }
    assert forall|i: int|
        #![trigger after.workspaces[i]]
        0 <= i < after.workspaces.len() implies after.workspaces[i].agent_status == group_status(
        after.panes,
        pane_is_in_workspace(after.workspaces[i].workspace_id@),
    ) by {
        let id = changed.workspaces[i].workspace_id@;
        lemma_group_status(changed.panes, n, Key::Workspace, id, pane_is_in_workspace(id));
    }
}

/// An agent shows what its pane shows: all that a pane knows of an agent.
pub open spec fn reflects(agent: AgentInfo, pane: PaneInfo) -> bool {
    &&& agent.pane_id == pane.pane_id
    &&& agent.terminal_id == pane.terminal_id
    &&& agent.workspace_id == pane.workspace_id
    &&& agent.tab_id == pane.tab_id
    &&& agent.agent == pane.agent
    &&& agent.display_agent == pane.display_agent
    &&& agent.title == pane.title
    &&& agent.terminal_title == pane.terminal_title
    &&& agent.terminal_title_stripped == pane.terminal_title_stripped
    &&& agent.agent_status == pane.agent_status
    &&& agent.state_labels == pane.state_labels
    &&& agent.tokens == pane.tokens
    &&& agent.agent_session == pane.agent_session
    &&& agent.focused == pane.focused
    &&& agent.cwd == pane.cwd
    &&& agent.foreground_cwd == pane.foreground_cwd
    &&& agent.revision == pane.revision
}

/// A pane runs an agent: its kind, the name it is shown by, or its session is known.
pub open spec fn runs_agent(pane: PaneInfo) -> bool {
    pane.agent is Some || pane.display_agent is Some || pane.agent_session is Some
}

pub open spec fn distinct_agents(agents: Seq<AgentInfo>) -> bool {
    forall|i: int, j: int|
        #![trigger agents[i], agents[j]]
        0 <= i < j < agents.len() ==> agents[i].pane_id@ != agents[j].pane_id@
}

/// The agent has one of the panes.
pub open spec fn is_housed(panes: Seq<PaneInfo>) -> spec_fn(AgentInfo) -> bool {
    |a: AgentInfo|
        exists|k: int| 0 <= k < panes.len() && (#[trigger] panes[k]).pane_id@ == a.pane_id@
}

proof fn lemma_positions(base: Seq<AgentInfo>, panes: Seq<PaneInfo>, n: int)
    requires
        0 <= n <= panes.len(),
    ensures
        ({
            let after = with_panes(base, panes, n);
            &&& base.len() <= after.len()
            &&& forall|j: int|
                #![trigger after[j]]
                0 <= j < base.len() ==> after[j].pane_id@ == base[j].pane_id@ && after[j].name
                    == base[j].name && after[j].screen_detection_skipped
                    == base[j].screen_detection_skipped
            &&& forall|j: int|
                #![trigger after[j]]
                base.len() <= j < after.len() ==> after[j].name is None
                    && !after[j].screen_detection_skipped && exists|k: int|
                    0 <= k < n && (#[trigger] panes[k]).pane_id@ == after[j].pane_id@ && runs_agent(
                        panes[k],
                    )
        }),
    decreases n,
{
    if n > 0 {
        lemma_positions(base, panes, n - 1);
        let before = with_panes(base, panes, n - 1);
        let after = with_panes(base, panes, n);
        let pane = panes[n - 1];
        lemma_entry_from(before, 0, pane.pane_id@);
        assert forall|j: int| #![trigger after[j]] base.len() <= j < after.len() implies exists|
            k: int,
        |
            0 <= k < n && (#[trigger] panes[k]).pane_id@ == after[j].pane_id@ && runs_agent(
                panes[k],
            ) by {
            if j < before.len() {
                let k = choose|k: int|
                    0 <= k < n - 1 && (#[trigger] panes[k]).pane_id@ == before[j].pane_id@
                        && runs_agent(panes[k]);
                assert(panes[k].pane_id@ == after[j].pane_id@);
            } else {
                assert(panes[n - 1].pane_id@ == after[j].pane_id@);
            }
        }
        assert forall|j: int| #![trigger after[j]] base.len() <= j < after.len() implies
            after[j].name is None && !after[j].screen_detection_skipped by {
            if j < before.len() {
                assert(before[j].name is None);
            }
        }
        assert forall|j: int| #![trigger after[j]] 0 <= j < base.len() implies after[j].pane_id@
            == base[j].pane_id@ && after[j].name == base[j].name
            && after[j].screen_detection_skipped == base[j].screen_detection_skipped by {
            assert(before[j].pane_id@ == base[j].pane_id@);
        }
    }
}

/// The agents of some panes, given those that were known before: those whose pane is still there, in
/// their order and with the names they were given, and behind them the panes that run an agent that
/// was not known. Every agent shows what its pane shows, no pane that runs an agent is left out, and
/// no two agents share a pane.
pub open spec fn agents_of(
    known: Seq<AgentInfo>,
    panes: Seq<PaneInfo>,
    agents: Seq<AgentInfo>,
) -> bool {
    let kept = known.filter(is_housed(panes));
    &&& kept.len() <= agents.len()
    &&& forall|j: int|
        #![trigger agents[j]]
        0 <= j < kept.len() ==> agents[j].pane_id@ == kept[j].pane_id@ && agents[j].name
            == kept[j].name && agents[j].screen_detection_skipped
            == kept[j].screen_detection_skipped
    &&& forall|j: int|
        #![trigger agents[j]]
        kept.len() <= j < agents.len() ==> agents[j].name is None
            && !agents[j].screen_detection_skipped && exists|k: int|
            0 <= k < panes.len() && (#[trigger] panes[k]).pane_id@ == agents[j].pane_id@
                && runs_agent(panes[k])
    &&& forall|j: int|
        #![trigger agents[j]]
        0 <= j < agents.len() ==> exists|k: int|
            0 <= k < panes.len() && reflects(agents[j], #[trigger] panes[k])
    &&& forall|k: int|
        #![trigger panes[k]]
        0 <= k < panes.len() && runs_agent(panes[k]) ==> exists|j: int|
            0 <= j < agents.len() && (#[trigger] agents[j]).pane_id@ == panes[k].pane_id@
    &&& distinct_agents(agents)
}

proof fn lemma_housed(x: Snapshot)
    ensures
        housed(x.agents, x.panes) == x.agents.filter(is_housed(x.panes)),
{
    let inner = |a: AgentInfo| entry_from(x.panes, 0, a.pane_id@) is Some;
    assert forall|a: AgentInfo| #[trigger] inner(a) == is_housed(x.panes)(a) by {
        lemma_entry_from(x.panes, 0, a.pane_id@);
        match entry_from(x.panes, 0, a.pane_id@) {
            Some(i) => {
                assert(x.panes[i].pane_id@ == a.pane_id@);
            },
            None => {
                if is_housed(x.panes)(a) {
                    let k = choose|k: int|
                        0 <= k < x.panes.len() && (#[trigger] x.panes[k]).pane_id@ == a.pane_id@;
                    assert(x.panes[k].key(Key::Own) != a.pane_id@);
                }
            },
        }
    }
    lemma_same_filter(x.agents, inner, is_housed(x.panes));
}

proof fn lemma_reflects(x: Snapshot, j: int)
    requires
        distinct_agents(x.agents),
        0 <= j < x.reconciled().agents.len(),
    ensures
        exists|k: int|
            0 <= k < x.panes.len() && reflects(x.reconciled().agents[j], #[trigger] x.panes[k]),
{
    assert(mirrors_some(x.reconciled().agents[j], x.panes)) by {
        agents_follow_panes(x);
        assert(one_agent_per_pane(x.agents));
    }
    let k = choose|k: int|
        0 <= k < x.panes.len() && #[trigger] mirrors(x.reconciled().agents[j], x.panes[k]);
    assert(reflects(x.reconciled().agents[j], x.panes[k]));
}

proof fn lemma_covered(x: Snapshot, k: int)
    requires
        0 <= k < x.panes.len(),
        runs_agent(x.panes[k]),
    ensures
        exists|j: int|
            0 <= j < x.reconciled().agents.len() && (
            #[trigger] x.reconciled().agents[j]).pane_id@ == x.panes[k].pane_id@,
{
    agents_follow_panes(x);
    assert(shows_agent(x.panes[k]));
}

proof fn lemma_apart(x: Snapshot)
    requires
        distinct_agents(x.agents),
    ensures
        distinct_agents(x.reconciled().agents),
{
    assert(one_agent_per_pane(x.reconciled().agents)) by {
        agents_follow_panes(x);
        assert(one_agent_per_pane(x.agents));
    }
}

proof fn lemma_agents_of(x: Snapshot)
    requires
        distinct_agents(x.agents),
    ensures
        agents_of(x.agents, x.panes, x.reconciled().agents),
{
    let panes = x.panes;
    let agents = x.reconciled().agents;
    let kept = x.agents.filter(is_housed(panes));
    lemma_housed(x);
    assert(agents == with_panes(kept, panes, panes.len() as int));
    lemma_positions(kept, panes, panes.len() as int);
    assert forall|j: int| #![trigger agents[j]] 0 <= j < agents.len() implies exists|k: int|
        0 <= k < panes.len() && reflects(agents[j], #[trigger] panes[k]) by {
        lemma_reflects(x, j);
    }
    assert forall|k: int|
        #![trigger panes[k]]
        0 <= k < panes.len() && runs_agent(panes[k]) implies exists|j: int|
        0 <= j < agents.len() && (#[trigger] agents[j]).pane_id@ == panes[k].pane_id@ by {
        lemma_covered(x, k);
    }
    lemma_apart(x);
}

proof fn lemma_agents_untouched(s: Snapshot, event: EventData)
    ensures
        s.changed(event).agents == s.agents,
{
}

/// After every event the agents are those of the panes, where no two agents shared a pane before.
pub proof fn agents_are_those_of_the_panes(s: Snapshot, event: EventData)
    requires
        distinct_agents(s.agents),
    ensures
        agents_of(s.agents, told(s, event).panes, told(s, event).agents),
{
    lemma_agents_untouched(s, event);
    lemma_agents_of(s.changed(event));
}

} // verus!
