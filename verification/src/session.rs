//! The session as one answer: its snapshot, and what a reference into it leads to.

use crate::agent_archive::{archive_info, archived_agent_info, ArchivedAgentSession};
use crate::federation::endpoint::{FederatedResourceKind, FederatedResourceRef};
use crate::runtime_identity::FederationMember;
use crate::schema::{
    copied, same_option, AgentInfo, ArchivedAgentInfo, PaneInfo, PaneLayoutSnapshot,
    RuntimeIdentity, SessionSnapshot, TabInfo, WorkspaceInfo,
};
use crate::search::{first_hit, lemma_first_hit};
use crate::text::same_text;
use vstd::prelude::*;

verus! {

/// A tab: how it is shown, and how its panes are laid out, as far as they are known.
#[derive(Debug, PartialEq, Eq)]
pub struct TabParts {
    pub info: Option<TabInfo>,
    pub layout: Option<PaneLayoutSnapshot>,
}

/// A workspace and its tabs.
#[derive(Debug, PartialEq, Eq)]
pub struct WorkspaceParts {
    pub info: WorkspaceInfo,
    pub tabs: Vec<TabParts>,
    pub active_tab: usize,
    pub focused_pane_id: Option<String>,
}

/// An archived session, and whether a resume command is known for it.
#[derive(Debug, PartialEq, Eq)]
pub struct ArchiveParts {
    pub archive: ArchivedAgentSession,
    pub resumable: bool,
}

/// The place of the active workspace among the workspaces, and the id that this place is known by.
/// The place may lie beyond the last workspace; the id is given all the same.
#[derive(Debug, PartialEq, Eq)]
pub struct ActiveWorkspace {
    pub index: usize,
    pub workspace_id: String,
}

/// What a snapshot is made of.
#[derive(Debug, PartialEq, Eq)]
pub struct SessionParts {
    /// The runtime's identity; none where it could not be read.
    pub identity: Option<RuntimeIdentity>,
    pub session_name: String,
    pub member: FederationMember,
    pub version: String,
    pub protocol: u32,
    pub event_cursor: u64,
    pub active: Option<ActiveWorkspace>,
    pub workspaces: Vec<WorkspaceParts>,
    pub panes: Option<Vec<PaneInfo>>,
    pub agents: Vec<AgentInfo>,
    pub archives: Vec<ArchiveParts>,
}

/// The tabs that can be shown.
pub open spec fn shown_tabs(tabs: Seq<TabParts>) -> Seq<TabInfo>
    decreases tabs.len(),
{
    if tabs.len() == 0 {
        Seq::empty()
    } else {
        let rest = shown_tabs(tabs.drop_last());
        match tabs.last().info {
            Some(info) => rest.push(info),
            None => rest,
        }
    }
}

/// The layouts that are known.
pub open spec fn known_layouts(tabs: Seq<TabParts>) -> Seq<PaneLayoutSnapshot>
    decreases tabs.len(),
{
    if tabs.len() == 0 {
        Seq::empty()
    } else {
        let rest = known_layouts(tabs.drop_last());
        match tabs.last().layout {
            Some(layout) => rest.push(layout),
            None => rest,
        }
    }
}

/// The tabs of all workspaces, workspace by workspace.
pub open spec fn all_tabs(workspaces: Seq<WorkspaceParts>) -> Seq<TabInfo>
    decreases workspaces.len(),
{
    if workspaces.len() == 0 {
        Seq::empty()
    } else {
        all_tabs(workspaces.drop_last()) + shown_tabs(workspaces.last().tabs@)
    }
}

/// The layouts of all workspaces, workspace by workspace.
pub open spec fn all_layouts(workspaces: Seq<WorkspaceParts>) -> Seq<PaneLayoutSnapshot>
    decreases workspaces.len(),
{
    if workspaces.len() == 0 {
        Seq::empty()
    } else {
        all_layouts(workspaces.drop_last()) + known_layouts(workspaces.last().tabs@)
    }
}

/// The workspace at the active place, if there is one.
pub open spec fn focused_workspace(parts: SessionParts) -> Option<WorkspaceParts> {
    match parts.active {
        Some(active) if active.index < parts.workspaces@.len() => Some(
            parts.workspaces@[active.index as int],
        ),
        _ => None,
    }
}

/// The id of a workspace's active tab.
pub open spec fn active_tab_of(workspace: WorkspaceParts) -> Option<String> {
    if workspace.active_tab < workspace.tabs@.len() {
        match workspace.tabs@[workspace.active_tab as int].info {
            Some(info) => Some(info.tab_id),
            None => None,
        }
    } else {
        None
    }
}

/// The identity of a session whose runtime identity could not be read.
pub open spec fn is_stand_in(identity: RuntimeIdentity, parts: SessionParts) -> bool {
    &&& identity.server_id@ == "unavailable"@
    &&& identity.session_id@ == "unavailable"@
    &&& identity.session_name == parts.session_name
    &&& identity.member_id == parts.member.member_id
    &&& identity.member_target == parts.member.member_target
    &&& identity.member_label == parts.member.member_label
}

fn identity_of_parts(parts: &SessionParts) -> (r: RuntimeIdentity)
    ensures
        match parts.identity {
            Some(identity) => r == identity,
            None => is_stand_in(r, *parts),
        },
{
    match &parts.identity {
        Some(identity) => identity.clone(),
        None => RuntimeIdentity {
            server_id: "unavailable".to_owned(),
            session_id: "unavailable".to_owned(),
            session_name: parts.session_name.clone(),
            member_id: parts.member.member_id.clone(),
            member_target: parts.member.member_target.clone(),
            member_label: same_option(&parts.member.member_label),
        },
    }
}

fn push_tabs(tabs: &Vec<TabParts>, infos: &mut Vec<TabInfo>, layouts: &mut Vec<PaneLayoutSnapshot>)
    ensures
        final(infos)@ == old(infos)@ + shown_tabs(tabs@),
        final(layouts)@ == old(layouts)@ + known_layouts(tabs@),
{
    let mut i: usize = 0;
    assert(tabs@.take(0) =~= Seq::<TabParts>::empty());
    assert(infos@ =~= infos@ + shown_tabs(tabs@.take(0)));
    assert(layouts@ =~= layouts@ + known_layouts(tabs@.take(0)));
    while i < tabs.len()
        invariant
            i <= tabs@.len(),
            infos@ == old(infos)@ + shown_tabs(tabs@.take(i as int)),
            layouts@ == old(layouts)@ + known_layouts(tabs@.take(i as int)),
        decreases tabs@.len() - i,
    {
        assert(tabs@.take(i + 1).drop_last() =~= tabs@.take(i as int));
        assert(tabs@.take(i + 1).last() == tabs@[i as int]);
        if let Some(info) = &tabs[i].info {
            infos.push(info.clone());
        }
        if let Some(layout) = &tabs[i].layout {
            layouts.push(layout.clone());
        }
        assert(infos@ =~= old(infos)@ + shown_tabs(tabs@.take(i + 1)));
        assert(layouts@ =~= old(layouts)@ + known_layouts(tabs@.take(i + 1)));
        i += 1;
    }
    assert(tabs@.take(i as int) =~= tabs@);
}

fn archived_infos(archives: &Vec<ArchiveParts>, member_id: &String) -> (r: Vec<ArchivedAgentInfo>)
    ensures
        r@ == Seq::new(
            archives@.len(),
            |i: int| archive_info(archives@[i].archive, *member_id, archives@[i].resumable),
        ),
{
    let mut out: Vec<ArchivedAgentInfo> = Vec::new();
    let mut i: usize = 0;
    while i < archives.len()
        invariant
            i <= archives@.len(),
            out@.len() == i,
            forall|k: int|
                0 <= k < i ==> #[trigger] out@[k] == archive_info(
                    archives@[k].archive,
                    *member_id,
                    archives@[k].resumable,
                ),
        decreases archives@.len() - i,
    {
        out.push(archived_agent_info(&archives[i].archive, member_id, archives[i].resumable));
        i += 1;
    }
    out
}

/// The snapshot of a session.
pub fn session_snapshot(parts: &SessionParts) -> (r: SessionSnapshot)
    ensures
        match parts.identity {
            Some(identity) => r.identity == identity,
            None => is_stand_in(r.identity, *parts),
        },
        r.version == parts.version,
        r.protocol == parts.protocol,
        r.event_cursor == parts.event_cursor,
        r.focused_workspace_id == (match parts.active {
            Some(active) => Some(active.workspace_id),
            None => None,
        }),
        match focused_workspace(*parts) {
            Some(workspace) => {
                &&& r.focused_tab_id == active_tab_of(workspace)
                &&& r.focused_pane_id == workspace.focused_pane_id
            },
            None => {
                &&& r.focused_tab_id is None
                &&& r.focused_pane_id is None
            },
        },
        r.workspaces@ == Seq::new(
            parts.workspaces@.len(),
            |i: int| parts.workspaces@[i].info,
        ),
        r.tabs@ == all_tabs(parts.workspaces@),
        r.layouts@ == all_layouts(parts.workspaces@),
        r.panes@ == (match parts.panes {
            Some(panes) => panes@,
            None => Seq::empty(),
        }),
        r.agents@ == parts.agents@,
        r.archived_agents@ == Seq::new(
            parts.archives@.len(),
            |i: int|
                archive_info(
                    parts.archives@[i].archive,
                    parts.member.member_id,
                    parts.archives@[i].resumable,
                ),
        ),
{
    let mut focused_workspace_id: Option<String> = None;
    let mut focused_tab_id: Option<String> = None;
    let mut focused_pane_id: Option<String> = None;
    if let Some(active) = &parts.active {
        focused_workspace_id = Some(active.workspace_id.clone());
        if active.index < parts.workspaces.len() {
            let workspace = &parts.workspaces[active.index];
            if workspace.active_tab < workspace.tabs.len() {
                if let Some(info) = &workspace.tabs[workspace.active_tab].info {
                    focused_tab_id = Some(info.tab_id.clone());
                }
            }
            focused_pane_id = same_option(&workspace.focused_pane_id);
        }
    }
    let mut workspaces: Vec<WorkspaceInfo> = Vec::new();
    let mut tabs: Vec<TabInfo> = Vec::new();
    let mut layouts: Vec<PaneLayoutSnapshot> = Vec::new();
    let mut i: usize = 0;
    let ghost all = parts.workspaces@;
    assert(all.take(0) =~= Seq::<WorkspaceParts>::empty());
    while i < parts.workspaces.len()
        invariant
            all == parts.workspaces@,
            i <= all.len(),
            workspaces@ == Seq::new(i as nat, |k: int| all[k].info),
            tabs@ == all_tabs(all.take(i as int)),
            layouts@ == all_layouts(all.take(i as int)),
        decreases all.len() - i,
    {
        assert(all.take(i + 1).drop_last() =~= all.take(i as int));
        assert(all.take(i + 1).last() == all[i as int]);
        workspaces.push(parts.workspaces[i].info.clone());
        push_tabs(&parts.workspaces[i].tabs, &mut tabs, &mut layouts);
        i += 1;
        assert(workspaces@ =~= Seq::new(i as nat, |k: int| all[k].info));
    }
    assert(all.take(i as int) =~= all);
    let panes = match &parts.panes {
        Some(panes) => copied(panes),
        None => Vec::new(),
    };
    SessionSnapshot {
        identity: identity_of_parts(parts),
        version: parts.version.clone(),
        protocol: parts.protocol,
        event_cursor: parts.event_cursor,
        focused_workspace_id,
        focused_tab_id,
        focused_pane_id,
        workspaces,
        tabs,
        panes,
        layouts,
        agents: copied(&parts.agents),
        archived_agents: archived_infos(&parts.archives, &parts.member.member_id),
    }
}

/// A tab, and the id it is known by.
#[derive(Debug, PartialEq, Eq)]
pub struct TabPlace {
    pub tab_id: String,
    pub ws_idx: usize,
    pub tab_idx: usize,
}

/// A pane, and the id it is known by.
#[derive(Debug, PartialEq, Eq)]
pub struct PanePlace {
    pub pane_id: String,
    pub ws_idx: usize,
    pub tab_idx: usize,
    pub pane: u64,
}

/// The resources of a session, in the order of the workspaces, tabs and panes.
#[derive(Debug, PartialEq, Eq)]
pub struct Resources {
    pub workspaces: Vec<String>,
    pub tabs: Vec<TabPlace>,
    pub panes: Vec<PanePlace>,
}

/// What a reference leads to.
#[derive(Debug, PartialEq, Eq)]
pub enum FocusTarget {
    Workspace { ws_idx: usize },
    Tab { ws_idx: usize, tab_idx: usize },
    Pane { ws_idx: usize, tab_idx: usize, pane: u64 },
    /// The archived agent of this id is opened again.
    Archive { archive_id: String },
}

pub open spec fn workspace_named(id: Seq<char>) -> spec_fn(String) -> bool {
    |workspace: String| workspace@ == id
}

pub open spec fn tab_named(id: Seq<char>) -> spec_fn(TabPlace) -> bool {
    |tab: TabPlace| tab.tab_id@ == id
}

pub open spec fn pane_named(id: Seq<char>) -> spec_fn(PanePlace) -> bool {
    |pane: PanePlace| pane.pane_id@ == id
}

/// What a reference of this runtime leads to, if it is there. Panes, terminals and agents are
/// found by their pane.
pub open spec fn target_of(resource: FederatedResourceRef, known: Resources) -> Option<FocusTarget> {
    let id = resource.resource_id@;
    match resource.kind {
        FederatedResourceKind::Workspace => {
            let at = first_hit(known.workspaces@, workspace_named(id), 0);
            if at < known.workspaces@.len() {
                Some(FocusTarget::Workspace { ws_idx: at as usize })
            } else {
                None
            }
        },
        FederatedResourceKind::Tab => {
            let at = first_hit(known.tabs@, tab_named(id), 0);
            if at < known.tabs@.len() {
                Some(
                    FocusTarget::Tab {
                        ws_idx: known.tabs@[at].ws_idx,
                        tab_idx: known.tabs@[at].tab_idx,
                    },
                )
            } else {
                None
            }
        },
        FederatedResourceKind::ArchivedAgent => Some(
            FocusTarget::Archive { archive_id: resource.resource_id },
        ),
        _ => {
            let at = first_hit(known.panes@, pane_named(id), 0);
            if at < known.panes@.len() {
                Some(
                    FocusTarget::Pane {
                        ws_idx: known.panes@[at].ws_idx,
                        tab_idx: known.panes@[at].tab_idx,
                        pane: known.panes@[at].pane,
                    },
                )
            } else {
                None
            }
        },
    }
}

fn find_target(resource: &FederatedResourceRef, known: &Resources) -> (r: Option<FocusTarget>)
    ensures
        r == target_of(*resource, *known),
{
    let id = resource.resource_id.as_str();
    match resource.kind {
        FederatedResourceKind::Workspace => {
            let mut i: usize = 0;
            while i < known.workspaces.len()
                invariant
                    resource.kind is Workspace,
                    id@ == resource.resource_id@,
                    i <= known.workspaces@.len(),
                    first_hit(known.workspaces@, workspace_named(id@), 0) == first_hit(
                        known.workspaces@,
                        workspace_named(id@),
                        i as int,
                    ),
                decreases known.workspaces@.len() - i,
            {
                if same_text(known.workspaces[i].as_str(), id) {
                    return Some(FocusTarget::Workspace { ws_idx: i });
                }
                i += 1;
            }
            None
        },
        FederatedResourceKind::Tab => {
            let mut i: usize = 0;
            while i < known.tabs.len()
                invariant
                    resource.kind is Tab,
                    id@ == resource.resource_id@,
                    i <= known.tabs@.len(),
                    first_hit(known.tabs@, tab_named(id@), 0) == first_hit(
                        known.tabs@,
                        tab_named(id@),
                        i as int,
                    ),
                decreases known.tabs@.len() - i,
            {
                if same_text(known.tabs[i].tab_id.as_str(), id) {
                    return Some(
                        FocusTarget::Tab {
                            ws_idx: known.tabs[i].ws_idx,
                            tab_idx: known.tabs[i].tab_idx,
                        },
                    );
                }
                i += 1;
            }
            None
        },
        FederatedResourceKind::ArchivedAgent => Some(
            FocusTarget::Archive { archive_id: resource.resource_id.clone() },
        ),
        _ => {
            let mut i: usize = 0;
            while i < known.panes.len()
                invariant
                    resource.kind is Pane || resource.kind is Terminal || resource.kind is Agent,
                    id@ == resource.resource_id@,
                    i <= known.panes@.len(),
                    first_hit(known.panes@, pane_named(id@), 0) == first_hit(
                        known.panes@,
                        pane_named(id@),
                        i as int,
                    ),
                decreases known.panes@.len() - i,
            {
                if same_text(known.panes[i].pane_id.as_str(), id) {
                    return Some(
                        FocusTarget::Pane {
                            ws_idx: known.panes[i].ws_idx,
                            tab_idx: known.panes[i].tab_idx,
                            pane: known.panes[i].pane,
                        },
                    );
                }
                i += 1;
            }
            None
        },
    }
}

/// What a reference leads to on the member `member_id`, or why it leads nowhere. `identity` is the
/// member's runtime, or why it is not known.
pub fn focus_federated_resource(
    resource: &FederatedResourceRef,
    member_id: &str,
    identity: &Result<RuntimeIdentity, String>,
    known: &Resources,
) -> (r: Result<FocusTarget, String>)
    ensures
        if resource.endpoint_id@ != member_id@ {
            r matches Err(text) && text@ == "resource belongs to "@ + resource.endpoint_id@
                + ", but this member is "@ + member_id@
        } else {
            match *identity {
                Err(err) => r matches Err(text) && text@ == "could not verify runtime identity: "@
                    + err@,
                Ok(runtime) => if resource.server_id@ != runtime.server_id@ || resource.session_id@
                    != runtime.session_id@ {
                    r matches Err(text) && text@
                        == "resource refers to a replaced federation runtime"@
                } else {
                    match target_of(*resource, *known) {
                        Some(target) => r == Ok::<FocusTarget, String>(target),
                        None => r matches Err(text) && text@ == "federated resource "@
                            + resource.resource_id@ + " no longer exists"@,
                    }
                },
            }
        },
{
    if !same_text(resource.endpoint_id.as_str(), member_id) {
        let mut text = "resource belongs to ".to_owned();
        text.append(resource.endpoint_id.as_str());
        text.append(", but this member is ");
        text.append(member_id);
        return Err(text);
    }
    let runtime = match identity {
        Ok(runtime) => runtime,
        Err(err) => {
            let mut text = "could not verify runtime identity: ".to_owned();
            text.append(err.as_str());
            return Err(text);
        },
    };
    if !same_text(resource.server_id.as_str(), runtime.server_id.as_str()) || !same_text(
        resource.session_id.as_str(),
        runtime.session_id.as_str(),
    ) {
        return Err("resource refers to a replaced federation runtime".to_owned());
    }
    match find_target(resource, known) {
        Some(target) => Ok(target),
        None => {
            let mut text = "federated resource ".to_owned();
            text.append(resource.resource_id.as_str());
            text.append(" no longer exists");
            Err(text)
        },
    }
}

/// What is said after an attempt to focus what a reference leads to.
pub fn focus_outcome(resource: &FederatedResourceRef, focused: bool) -> (r: Result<(), String>)
    ensures
        r is Ok == focused,
        r matches Err(text) ==> text@ == "could not focus federated resource "@
            + resource.resource_id@,
{
    if focused {
        Ok(())
    } else {
        let mut text = "could not focus federated resource ".to_owned();
        text.append(resource.resource_id.as_str());
        Err(text)
    }
}

/// Where every tab can be shown and laid out, a snapshot has a layout for every tab.
pub proof fn every_tab_has_its_layout(workspaces: Seq<WorkspaceParts>)
    requires
        forall|i: int, j: int|
            #![trigger workspaces[i].tabs@[j]]
            0 <= i < workspaces.len() && 0 <= j < workspaces[i].tabs@.len()
                ==> workspaces[i].tabs@[j].info is Some && workspaces[i].tabs@[j].layout is Some,
    ensures
        all_tabs(workspaces).len() == all_layouts(workspaces).len(),
    decreases workspaces.len(),
{
    if workspaces.len() > 0 {
        let rest = workspaces.drop_last();
        assert forall|i: int, j: int|
            #![trigger rest[i].tabs@[j]]
            0 <= i < rest.len() && 0 <= j < rest[i].tabs@.len() implies rest[i].tabs@[j].info is Some
            && rest[i].tabs@[j].layout is Some by {
            assert(rest[i] == workspaces[i]);
            assert(workspaces[i].tabs@[j].info is Some);
        }
        every_tab_has_its_layout(rest);
        let last = workspaces.last().tabs@;
        assert forall|j: int| 0 <= j < last.len() implies (#[trigger] last[j]).info is Some
            && last[j].layout is Some by {
            assert(workspaces[workspaces.len() - 1].tabs@[j].info is Some);
        }
        lemma_all_shown(last);
    }
}

proof fn lemma_all_shown(tabs: Seq<TabParts>)
    requires
        forall|j: int|
            0 <= j < tabs.len() ==> (#[trigger] tabs[j]).info is Some && tabs[j].layout is Some,
    ensures
        shown_tabs(tabs).len() == tabs.len(),
        known_layouts(tabs).len() == tabs.len(),
    decreases tabs.len(),
{
    if tabs.len() > 0 {
        assert(tabs.last() == tabs[tabs.len() - 1]);
        lemma_all_shown(tabs.drop_last());
    }
}

/// A reference leads to the first thing of its kind with its id, and nowhere where there is none:
/// workspaces and tabs by their own ids; panes, terminals and agents by the id of their pane. One to an
/// archived agent leads to the archive.
pub proof fn references_lead_to_what_they_name(resource: FederatedResourceRef, known: Resources, k: int)
    requires
        known.workspaces@.len() <= usize::MAX,
    ensures
        ({
            let id = resource.resource_id@;
            let target = target_of(resource, known);
            let in_panes = resource.kind is Pane || resource.kind is Terminal
                || resource.kind is Agent;
            &&& resource.kind is Workspace && 0 <= k < known.workspaces@.len()
                && known.workspaces@[k]@ == id && (forall|j: int|
                0 <= j < k ==> (#[trigger] known.workspaces@[j])@ != id) ==> target == Some(
                FocusTarget::Workspace { ws_idx: k as usize },
            )
            &&& resource.kind is Workspace && (forall|j: int|
                0 <= j < known.workspaces@.len() ==> (#[trigger] known.workspaces@[j])@ != id)
                ==> target is None
            &&& resource.kind is Tab && 0 <= k < known.tabs@.len() && known.tabs@[k].tab_id@ == id
                && (forall|j: int| 0 <= j < k ==> (#[trigger] known.tabs@[j]).tab_id@ != id)
                ==> target == Some(
                FocusTarget::Tab { ws_idx: known.tabs@[k].ws_idx, tab_idx: known.tabs@[k].tab_idx },
            )
            &&& resource.kind is Tab && (forall|j: int|
                0 <= j < known.tabs@.len() ==> (#[trigger] known.tabs@[j]).tab_id@ != id)
                ==> target is None
            &&& in_panes && 0 <= k < known.panes@.len() && known.panes@[k].pane_id@ == id && (forall|
                j: int,
            |
                0 <= j < k ==> (#[trigger] known.panes@[j]).pane_id@ != id) ==> target == Some(
                FocusTarget::Pane {
                    ws_idx: known.panes@[k].ws_idx,
                    tab_idx: known.panes@[k].tab_idx,
                    pane: known.panes@[k].pane,
                },
            )
            &&& in_panes && (forall|j: int|
                0 <= j < known.panes@.len() ==> (#[trigger] known.panes@[j]).pane_id@ != id)
                ==> target is None
            &&& resource.kind is ArchivedAgent ==> target == Some(
                FocusTarget::Archive { archive_id: resource.resource_id },
            )
        }),
{
    let id = resource.resource_id@;
    lemma_first(known.workspaces@, workspace_named(id), k);
    lemma_first(known.tabs@, tab_named(id), k);
    lemma_first(known.panes@, pane_named(id), k);
}

proof fn lemma_first<T>(items: Seq<T>, hit: spec_fn(T) -> bool, k: int)
    ensures
        0 <= k < items.len() && hit(items[k]) && (forall|j: int| 0 <= j < k ==> !hit(#[trigger] items[j]))
            ==> first_hit(items, hit, 0) == k,
        (forall|j: int| 0 <= j < items.len() ==> !hit(#[trigger] items[j])) ==> first_hit(
            items,
            hit,
            0,
        ) == items.len(),
{
    lemma_first_hit(items, hit, 0);
    let at = first_hit(items, hit, 0);
    if at < items.len() {
        assert(hit(items[at]));
    }
    if 0 <= k < items.len() && k < at {
        assert(!hit(items[k]));
    }
}

/// The tabs and layouts of a snapshot are those of its workspaces, workspace by workspace and tab by
/// tab: adding a tab behind the last of the last workspace adds what is known of it behind the rest,
/// and adding a workspace without tabs adds nothing.
pub proof fn tabs_are_listed_in_order(
    workspaces: Seq<WorkspaceParts>,
    last: WorkspaceParts,
    more: WorkspaceParts,
    tab: TabParts,
)
    requires
        more.tabs@ == last.tabs@.push(tab),
    ensures
        all_tabs(workspaces.push(more)) == (match tab.info {
            Some(info) => all_tabs(workspaces.push(last)).push(info),
            None => all_tabs(workspaces.push(last)),
        }),
        all_layouts(workspaces.push(more)) == (match tab.layout {
            Some(layout) => all_layouts(workspaces.push(last)).push(layout),
            None => all_layouts(workspaces.push(last)),
        }),
        last.tabs@.len() == 0 ==> all_tabs(workspaces.push(last)) == all_tabs(workspaces),
        last.tabs@.len() == 0 ==> all_layouts(workspaces.push(last)) == all_layouts(workspaces),
        all_tabs(Seq::<WorkspaceParts>::empty()).len() == 0,
        all_layouts(Seq::<WorkspaceParts>::empty()).len() == 0,
{
    assert(workspaces.push(more).drop_last() =~= workspaces);
    assert(workspaces.push(last).drop_last() =~= workspaces);
    assert(more.tabs@.drop_last() =~= last.tabs@);
    assert(all_tabs(workspaces.push(more)) =~= (match tab.info {
        Some(info) => all_tabs(workspaces.push(last)).push(info),
        None => all_tabs(workspaces.push(last)),
    }));
    assert(all_layouts(workspaces.push(more)) =~= (match tab.layout {
        Some(layout) => all_layouts(workspaces.push(last)).push(layout),
        None => all_layouts(workspaces.push(last)),
    }));
    if last.tabs@.len() == 0 {
        assert(all_tabs(workspaces.push(last)) =~= all_tabs(workspaces));
        assert(all_layouts(workspaces.push(last)) =~= all_layouts(workspaces));
    }
}

/// What is focused is the active place's: the tab that is active there, where it can be shown.
pub proof fn focus_is_that_of_the_active_workspace(parts: SessionParts, active: ActiveWorkspace)
    requires
        parts.active == Some(active),
    ensures
        active.index < parts.workspaces@.len() ==> focused_workspace(parts) == Some(
            parts.workspaces@[active.index as int],
        ),
        active.index >= parts.workspaces@.len() ==> focused_workspace(parts) is None,
        forall|w: WorkspaceParts|
            w.active_tab < w.tabs@.len() && w.tabs@[w.active_tab as int].info is Some ==> #[trigger]
            active_tab_of(w) == Some(w.tabs@[w.active_tab as int].info->0.tab_id),
        forall|w: WorkspaceParts|
            w.active_tab >= w.tabs@.len() || w.tabs@[w.active_tab as int].info is None ==> (
            #[trigger] active_tab_of(w)) is None,
{
}

} // verus!
