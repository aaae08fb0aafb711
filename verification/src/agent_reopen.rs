//! Bringing an archived agent session back into a pane.
//!
//! Every step takes what the panes and the file system came to and says what is done next; doing it
//! is the caller's part.

use crate::agent_archive::{
    same_session, ArchivedAgentSession, WorkspaceProjectIdentity, WorktreeSpaceMembership,
};
use crate::schema::{same_option, AgentSessionInfo};
use crate::search::{first_hit, lemma_first_hit};
use crate::text::{opt_str, same_text};
use vstd::prelude::*;

verus! {

/// A pane that is open.
#[derive(Debug, PartialEq, Eq)]
pub struct LivePane {
    pub ws_idx: usize,
    pub pane_id: u64,
    /// The agent session that the pane's terminal runs.
    pub session: Option<AgentSessionInfo>,
}

/// How a workspace that is open is told.
#[derive(Debug, PartialEq, Eq)]
pub struct OpenWorkspace {
    pub id: String,
    pub project_key: Option<String>,
}

/// What exists on disk for an archive.
#[derive(Debug, PartialEq, Eq)]
pub struct Places {
    pub cwd_exists: bool,
    pub project_root_exists: bool,
    /// The home directory, where it exists.
    pub home: Option<String>,
}

/// How a session comes back.
#[derive(Debug, PartialEq, Eq)]
pub enum ReopenPlan {
    /// A pane runs it already.
    Focus { ws_idx: usize, pane_id: u64 },
    /// A new tab in a workspace that is open.
    NewTab { ws_idx: usize, cwd: String },
    /// A workspace of its own.
    NewWorkspace { cwd: String },
}

pub open spec fn has_archive_id(id: Seq<char>) -> spec_fn(ArchivedAgentSession) -> bool {
    |archive: ArchivedAgentSession| archive.archive_id@ == id
}

/// The place of an archive, or the number of archives.
pub open spec fn archive_place(archives: Seq<ArchivedAgentSession>, id: Seq<char>) -> int {
    first_hit(archives, has_archive_id(id), 0)
}

pub open spec fn runs_session(session: AgentSessionInfo) -> spec_fn(LivePane) -> bool {
    |pane: LivePane|
        pane.session is Some && crate::agent_archive::sessions_match(pane.session->0, session)
}

/// The pane that runs a session.
pub open spec fn live_place(panes: Seq<LivePane>, session: AgentSessionInfo) -> int {
    first_hit(panes, runs_session(session), 0)
}

/// The workspace of an archive: the one with its id, else one of its project.
pub open spec fn workspace_place(
    workspaces: Seq<OpenWorkspace>,
    archive: ArchivedAgentSession,
) -> int {
    let by_id = first_hit(
        workspaces,
        |workspace: OpenWorkspace| workspace.id@ == archive.workspace_id@,
        0,
    );
    if by_id < workspaces.len() {
        by_id
    } else {
        match archive.project_identity {
            Some(project) => first_hit(
                workspaces,
                |workspace: OpenWorkspace|
                    workspace.project_key is Some && workspace.project_key->0@ == project.key@,
                0,
            ),
            None => workspaces.len() as int,
        }
    }
}

fn find_archive(archives: &Vec<ArchivedAgentSession>, id: &str) -> (r: usize)
    ensures
        r == archive_place(archives@, id@),
        r <= archives@.len(),
{
    let mut i: usize = 0;
    while i < archives.len()
        invariant
            i <= archives@.len(),
            archive_place(archives@, id@) == first_hit(archives@, has_archive_id(id@), i as int),
        decreases archives@.len() - i,
    {
        if same_text(archives[i].archive_id.as_str(), id) {
            return i;
        }
        i += 1;
    }
    i
}

fn live_pane_for_archive(panes: &Vec<LivePane>, session: &AgentSessionInfo) -> (r: usize)
    ensures
        r == live_place(panes@, *session),
        r <= panes@.len(),
{
    let mut i: usize = 0;
    while i < panes.len()
        invariant
            i <= panes@.len(),
            live_place(panes@, *session) == first_hit(panes@, runs_session(*session), i as int),
        decreases panes@.len() - i,
    {
        if let Some(running) = &panes[i].session {
            if same_session(running, session) {
                return i;
            }
        }
        i += 1;
    }
    i
}

fn find_workspace_id(workspaces: &Vec<OpenWorkspace>, id: &str) -> (r: usize)
    ensures
        r == first_hit(workspaces@, |workspace: OpenWorkspace| workspace.id@ == id@, 0),
        r <= workspaces@.len(),
{
    let ghost hit = |workspace: OpenWorkspace| workspace.id@ == id@;
    let mut i: usize = 0;
    while i < workspaces.len()
        invariant
            i <= workspaces@.len(),
            hit == (|workspace: OpenWorkspace| workspace.id@ == id@),
            first_hit(workspaces@, hit, 0) == first_hit(workspaces@, hit, i as int),
        decreases workspaces@.len() - i,
    {
        if same_text(workspaces[i].id.as_str(), id) {
            return i;
        }
        i += 1;
    }
    i
}

fn find_project(workspaces: &Vec<OpenWorkspace>, key: &str) -> (r: usize)
    ensures
        r == first_hit(
            workspaces@,
            |workspace: OpenWorkspace|
                workspace.project_key is Some && workspace.project_key->0@ == key@,
            0,
        ),
        r <= workspaces@.len(),
{
    let ghost hit = |workspace: OpenWorkspace|
        workspace.project_key is Some && workspace.project_key->0@ == key@;
    let mut i: usize = 0;
    while i < workspaces.len()
        invariant
            i <= workspaces@.len(),
            hit == (|workspace: OpenWorkspace|
                workspace.project_key is Some && workspace.project_key->0@ == key@),
            first_hit(workspaces@, hit, 0) == first_hit(workspaces@, hit, i as int),
        decreases workspaces@.len() - i,
    {
        if let Some(project) = &workspaces[i].project_key {
            if same_text(project.as_str(), key) {
                return i;
            }
        }
        i += 1;
    }
    i
}

fn find_workspace(workspaces: &Vec<OpenWorkspace>, archive: &ArchivedAgentSession) -> (r: usize)
    ensures
        r == workspace_place(workspaces@, *archive),
        r <= workspaces@.len(),
{
    let by_id = find_workspace_id(workspaces, archive.workspace_id.as_str());
    if by_id < workspaces.len() {
        return by_id;
    }
    match &archive.project_identity {
        Some(project) => find_project(workspaces, project.key.as_str()),
        None => workspaces.len(),
    }
}

/// Where a session comes back: where it ran, else its project's root, else home, else the root of
/// the file system.
pub open spec fn cwd_of(archive: ArchivedAgentSession, places: Places) -> Seq<char> {
    if places.cwd_exists {
        archive.cwd@
    } else if archive.project_root is Some && places.project_root_exists {
        archive.project_root->0@
    } else if places.home is Some {
        places.home->0@
    } else {
        "/"@
    }
}

/// Where a session comes back.
pub fn reopen_cwd(archive: &ArchivedAgentSession, places: &Places) -> (r: String)
    ensures
        r@ == cwd_of(*archive, *places),
{
    if places.cwd_exists {
        return archive.cwd.clone();
    }
    if let Some(root) = &archive.project_root {
        if places.project_root_exists {
            return root.clone();
        }
    }
    match &places.home {
        Some(home) => home.clone(),
        None => "/".to_owned(),
    }
}

/// Decides how the archive `archive_id` comes back. `resumable` says whether a resume command is
/// known for it.
pub fn plan_reopen(
    archives: &Vec<ArchivedAgentSession>,
    archive_id: &str,
    panes: &Vec<LivePane>,
    workspaces: &Vec<OpenWorkspace>,
    resumable: bool,
    places: &Places,
) -> (r: Result<ReopenPlan, String>)
    ensures
        ({
            let at = archive_place(archives@, archive_id@);
            let archive = archives@[at];
            let session = crate::agent_archive::archived_session(archive);
            let live = live_place(panes@, session->0);
            let ws = workspace_place(workspaces@, archive);
            if at == archives@.len() {
                r matches Err(text) && text@ == "archived agent "@ + archive_id@ + " not found"@
            } else if session is Some && live < panes@.len() {
                r matches Ok(ReopenPlan::Focus { ws_idx, pane_id }) && ws_idx == panes@[live].ws_idx
                    && pane_id == panes@[live].pane_id
            } else if !resumable || session is None {
                r matches Err(text) && text@ == archive.agent@ + " session is not resumable"@
            } else if ws < workspaces@.len() {
                r matches Ok(ReopenPlan::NewTab { ws_idx, cwd }) && ws_idx == ws && cwd@ == cwd_of(
                    archive,
                    *places,
                )
            } else {
                r matches Ok(ReopenPlan::NewWorkspace { cwd }) && cwd@ == cwd_of(archive, *places)
            }
        }),
{
    let at = find_archive(archives, archive_id);
    if at == archives.len() {
        let mut text = "archived agent ".to_owned();
        text.append(archive_id);
        text.append(" not found");
        return Err(text);
    }
    let archive = &archives[at];
    let session = archive.dedupe_key();
    if let Some(session) = &session {
        let live = live_pane_for_archive(panes, session);
        if live < panes.len() {
            return Ok(ReopenPlan::Focus { ws_idx: panes[live].ws_idx, pane_id: panes[live].pane_id });
        }
    }
    if !resumable || session.is_none() {
        let mut text = archive.agent.clone();
        text.append(" session is not resumable");
        return Err(text);
    }
    let cwd = reopen_cwd(archive, places);
    let ws_idx = find_workspace(workspaces, archive);
    if ws_idx < workspaces.len() {
        Ok(ReopenPlan::NewTab { ws_idx, cwd })
    } else {
        Ok(ReopenPlan::NewWorkspace { cwd })
    }
}

/// What a recreated workspace gets from the archive.
#[derive(Debug, PartialEq, Eq)]
pub struct RestoredWorkspace {
    pub custom_name: Option<String>,
    pub project_identity: Option<WorkspaceProjectIdentity>,
    pub worktree_space: Option<WorktreeSpaceMembership>,
}

/// Where a session was placed.
#[derive(Debug, PartialEq, Eq)]
pub struct Placement {
    pub ws_idx: usize,
    pub tab_idx: usize,
    /// What the workspace gets, where it was made for this session.
    pub workspace: Option<RestoredWorkspace>,
    /// The name that the tab gets.
    pub tab_name: Option<String>,
}

/// The group of checkouts that is restored: that of the archive, where the checkout is still there
/// and still of that project.
pub open spec fn restored_space(
    archive: ArchivedAgentSession,
    checkout_key: Option<Seq<char>>,
) -> Option<WorktreeSpaceMembership> {
    match archive.worktree_space {
        Some(space) if checkout_key == Some(space.key@) => Some(space),
        _ => None,
    }
}

/// The name of the tab: its old one, else the session's title.
pub open spec fn restored_tab_name(archive: ArchivedAgentSession) -> Option<String> {
    if archive.tab_name is Some {
        archive.tab_name
    } else {
        archive.title
    }
}

/// Takes the new tab. `made` is the tab's number, or why there is none.
pub fn place_in_tab(archive: &ArchivedAgentSession, ws_idx: usize, made: Result<usize, String>) -> (r:
    Result<Placement, String>)
    ensures
        match made {
            Ok(tab_idx) => r == Ok::<Placement, String>(
                Placement {
                    ws_idx,
                    tab_idx,
                    workspace: None,
                    tab_name: restored_tab_name(*archive),
                },
            ),
            Err(err) => r matches Err(text) && text@ == "could not create a tab for "@
                + archive.agent@ + ": "@ + err@,
        },
{
    match made {
        Ok(tab_idx) => Ok(
            Placement { ws_idx, tab_idx, workspace: None, tab_name: tab_name_of(archive) },
        ),
        Err(err) => {
            let mut text = "could not create a tab for ".to_owned();
            text.append(archive.agent.as_str());
            text.append(": ");
            text.append(err.as_str());
            Err(text)
        },
    }
}

fn tab_name_of(archive: &ArchivedAgentSession) -> (r: Option<String>)
    ensures
        r == restored_tab_name(*archive),
{
    if archive.tab_name.is_some() {
        same_option(&archive.tab_name)
    } else {
        same_option(&archive.title)
    }
}

/// Takes the new workspace. `made` is its number, or why there is none; `checkout_key` is the
/// project key of what lies at the archive's checkout path.
pub fn place_in_workspace(
    archive: &ArchivedAgentSession,
    made: Result<usize, String>,
    checkout_key: Option<&str>,
) -> (r: Result<Placement, String>)
    ensures
        match made {
            Ok(ws_idx) => r == Ok::<Placement, String>(
                Placement {
                    ws_idx,
                    tab_idx: 0,
                    workspace: Some(
                        RestoredWorkspace {
                            custom_name: archive.workspace_name,
                            project_identity: archive.project_identity,
                            worktree_space: restored_space(*archive, opt_str(checkout_key)),
                        },
                    ),
                    tab_name: restored_tab_name(*archive),
                },
            ),
            Err(err) => r matches Err(text) && text@ == "could not recreate a workspace for "@
                + archive.agent@ + ": "@ + err@,
        },
{
    match made {
        Ok(ws_idx) => {
            let project_identity = match &archive.project_identity {
                Some(project) => Some(project.clone()),
                None => None,
            };
            let worktree_space = match (&archive.worktree_space, checkout_key) {
                (Some(space), Some(key)) => if same_text(space.key.as_str(), key) {
                    Some(space.clone())
                } else {
                    None
                },
                _ => None,
            };
            Ok(
                Placement {
                    ws_idx,
                    tab_idx: 0,
                    workspace: Some(
                        RestoredWorkspace {
                            custom_name: same_option(&archive.workspace_name),
                            project_identity,
                            worktree_space,
                        },
                    ),
                    tab_name: tab_name_of(archive),
                },
            )
        },
        Err(err) => {
            let mut text = "could not recreate a workspace for ".to_owned();
            text.append(archive.agent.as_str());
            text.append(": ");
            text.append(err.as_str());
            Err(text)
        },
    }
}

/// What is typed into the new terminal: the resume command and a carriage return. `command` is the
/// command line, none where it is empty.
pub fn launch(terminal_id: Option<u64>, command: Option<String>) -> (r: Result<(u64, String), String>)
    ensures
        match (terminal_id, command) {
            (None, _) => r matches Err(text) && text@ == "new archive pane has no terminal"@,
            (Some(_), None) => r matches Err(text) && text@ == "agent resume command is empty"@,
            (Some(id), Some(line)) => r matches Ok((to, typed)) && to == id && typed@
                == line@ + seq!['\r'],
        },
{
    match terminal_id {
        None => Err("new archive pane has no terminal".to_owned()),
        Some(id) => match command {
            None => Err("agent resume command is empty".to_owned()),
            Some(line) => {
                let mut typed = line;
                typed.push('\r');
                assert(typed@ =~= line@ + seq!['\r']);
                Ok((id, typed))
            },
        },
    }
}

/// What the terminal of a session that came back gets from the archive.
#[derive(Debug, PartialEq, Eq)]
pub struct RestoredTerminal {
    pub session: Option<AgentSessionInfo>,
    pub last_user_activity_at: Option<u64>,
    pub last_agent_activity_at: Option<u64>,
    pub manual_label: Option<String>,
    pub agent_name: Option<String>,
    /// The agent that the terminal is taken to run, idle; none where its label is not known.
    pub idle_agent: Option<String>,
}

/// What is undone where the command could not be sent.
#[derive(Debug, PartialEq, Eq)]
pub enum Rollback {
    RemoveWorkspace { ws_idx: usize },
    CloseTab { ws_idx: usize, tab_idx: usize },
}

/// What follows an attempt to send the command: what the terminal gets, or, where the attempt
/// failed, what is undone and what is said. The terminal itself goes too. `agent_known` says
/// whether the archive's agent is one that the detection of agents has a name for.
pub fn after_launch(
    archive: &ArchivedAgentSession,
    placement: &Placement,
    sent: bool,
    agent_known: bool,
) -> (r: Result<RestoredTerminal, (Rollback, String)>)
    ensures
        sent ==> r == Ok::<RestoredTerminal, (Rollback, String)>(
            RestoredTerminal {
                session: crate::agent_archive::archived_session(*archive),
                last_user_activity_at: archive.last_user_activity_at,
                last_agent_activity_at: archive.last_agent_activity_at,
                manual_label: archive.label,
                agent_name: archive.agent_name,
                idle_agent: if agent_known {
                    Some(archive.agent)
                } else {
                    None
                },
            },
        ),
        !sent ==> (r matches Err((undo, text)) && undo == (if placement.workspace is Some {
            Rollback::RemoveWorkspace { ws_idx: placement.ws_idx }
        } else {
            Rollback::CloseTab { ws_idx: placement.ws_idx, tab_idx: placement.tab_idx }
        }) && text@ == "could not start the archived "@ + archive.agent@ + " session"@),
{
    if sent {
        Ok(
            RestoredTerminal {
                session: archive.dedupe_key(),
                last_user_activity_at: archive.last_user_activity_at,
                last_agent_activity_at: archive.last_agent_activity_at,
                manual_label: same_option(&archive.label),
                agent_name: same_option(&archive.agent_name),
                idle_agent: if agent_known {
                    Some(archive.agent.clone())
                } else {
                    None
                },
            },
        )
    } else {
        let undo = if placement.workspace.is_some() {
            Rollback::RemoveWorkspace { ws_idx: placement.ws_idx }
        } else {
            Rollback::CloseTab { ws_idx: placement.ws_idx, tab_idx: placement.tab_idx }
        };
        let mut text = "could not start the archived ".to_owned();
        text.append(archive.agent.as_str());
        text.append(" session");
        Err((undo, text))
    }
}

/// The archive of a session that runs in the pane `pane`.
pub open spec fn reopened(archive: ArchivedAgentSession, pane: String) -> ArchivedAgentSession {
    ArchivedAgentSession { active_pane_id: Some(pane), closed_at: None, ..archive }
}

/// Notes in the archive which pane runs the session.
pub fn mark_reopened(
    archives: &mut Vec<ArchivedAgentSession>,
    archive_id: &str,
    public_pane_id: Option<String>,
) -> (r: Result<(), String>)
    ensures
        ({
            let at = archive_place(old(archives)@, archive_id@);
            match public_pane_id {
                Some(pane) => r is Ok && final(archives)@ == (if at < old(archives)@.len() {
                    old(archives)@.update(at, reopened(old(archives)@[at], pane))
                } else {
                    old(archives)@
                }),
                None => final(archives)@ == old(archives)@ && (r matches Err(text) && text@
                    == "new archive pane has no public identity"@),
            }
        }),
{
    let pane = match public_pane_id {
        Some(pane) => pane,
        None => return Err("new archive pane has no public identity".to_owned()),
    };
    let at = find_archive(archives, archive_id);
    if at < archives.len() {
        let ghost before = archives@[at as int];
        let stored = &mut archives[at];
        stored.active_pane_id = Some(pane);
        stored.closed_at = None;
        proof {
            assert(archives@[at as int] == reopened(before, pane));
        }
    }
    Ok(())
}

/// What is done once the pane of an archived session is known.
#[derive(Debug, PartialEq, Eq)]
pub enum FollowUp {
    FocusPane { ws_idx: usize, pane_id: u64 },
    /// Keys go to the terminal.
    TerminalMode,
    SaveSession,
    /// Tells the listeners of a new workspace, its tab and its pane.
    WorkspaceOpened { ws_idx: usize },
    /// Tells the listeners of a new tab and its pane.
    TabCreated { ws_idx: usize, tab_idx: usize },
    /// Tells the listeners that the archives changed.
    ArchivesChanged,
}

/// What shows a pane.
pub open spec fn showing(ws_idx: usize, pane_id: u64) -> Seq<FollowUp> {
    seq![FollowUp::FocusPane { ws_idx, pane_id }, FollowUp::TerminalMode]
}

/// What follows for a session that came back: its pane is shown, the session is saved, and the
/// listeners are told of the place that was made, then of the archives.
pub open spec fn settling(placement: Placement, pane_id: u64) -> Seq<FollowUp> {
    showing(placement.ws_idx, pane_id) + seq![
        FollowUp::SaveSession,
        if placement.workspace is Some {
            FollowUp::WorkspaceOpened { ws_idx: placement.ws_idx }
        } else {
            FollowUp::TabCreated { ws_idx: placement.ws_idx, tab_idx: placement.tab_idx }
        },
        FollowUp::ArchivesChanged,
    ]
}

/// What follows, in order, for a session that runs already: nothing but that its pane is shown.
pub fn after_finding(ws_idx: usize, pane_id: u64) -> (r: Vec<FollowUp>)
    ensures
        r@ == showing(ws_idx, pane_id),
{
    vec![FollowUp::FocusPane { ws_idx, pane_id }, FollowUp::TerminalMode]
}

/// What follows, in order, for a session that came back and was noted in the archive.
pub fn after_reopening(placement: &Placement, pane_id: u64) -> (r: Vec<FollowUp>)
    ensures
        r@ == settling(*placement, pane_id),
{
    let mut steps = after_finding(placement.ws_idx, pane_id);
    steps.push(FollowUp::SaveSession);
    if placement.workspace.is_some() {
        steps.push(FollowUp::WorkspaceOpened { ws_idx: placement.ws_idx });
    } else {
        steps.push(
            FollowUp::TabCreated { ws_idx: placement.ws_idx, tab_idx: placement.tab_idx },
        );
    }
    steps.push(FollowUp::ArchivesChanged);
    assert(steps@ =~= settling(*placement, pane_id));
    steps
}

/// An archive that came back is found again, is not closed, and is focused the next time.
pub proof fn reopened_archive_is_live(
    archives: Seq<ArchivedAgentSession>,
    id: Seq<char>,
    pane: String,
    panes: Seq<LivePane>,
    at_pane: int,
)
    requires
        archive_place(archives, id) < archives.len(),
        crate::agent_archive::archived_session(archives[archive_place(archives, id)]) is Some,
        0 <= at_pane < panes.len(),
        panes[at_pane].session is Some,
        crate::agent_archive::sessions_match(
            panes[at_pane].session->0,
            crate::agent_archive::archived_session(archives[archive_place(archives, id)])->0,
        ),
    ensures
        ({
            let at = archive_place(archives, id);
            let after = archives.update(at, reopened(archives[at], pane));
            &&& archive_place(after, id) == at
            &&& after[at].active_pane_id is Some
            &&& live_place(
                panes,
                crate::agent_archive::archived_session(after[at])->0,
            ) < panes.len()
            &&& forall|k: int| 0 <= k < archives.len() && k != at ==> after[k] == archives[k]
        }),
{
    let hit = has_archive_id(id);
    lemma_first_hit(archives, hit, 0);
    let at = archive_place(archives, id);
    let after = archives.update(at, reopened(archives[at], pane));
    lemma_first_hit(after, hit, 0);
    let found = archive_place(after, id);
    if found < at {
        assert(after[found] == archives[found]);
    }
    assert(hit(after[at]));
    let session = crate::agent_archive::archived_session(archives[at])->0;
    lemma_first_hit(panes, runs_session(session), 0);
    assert(runs_session(session)(panes[at_pane]));
}

/// The first with a property, or the end where none has it.
pub open spec fn is_first<T>(items: Seq<T>, fits: spec_fn(T) -> bool, k: int) -> bool {
    &&& 0 <= k <= items.len()
    &&& k < items.len() ==> fits(items[k])
    &&& forall|j: int| 0 <= j < k ==> !fits(#[trigger] items[j])
}

proof fn lemma_is_first<T>(items: Seq<T>, hit: spec_fn(T) -> bool, fits: spec_fn(T) -> bool)
    requires
        forall|x: T| #[trigger] hit(x) == fits(x),
    ensures
        is_first(items, fits, first_hit(items, hit, 0)),
{
    lemma_first_hit(items, hit, 0);
    let at = first_hit(items, hit, 0);
    assert forall|j: int| 0 <= j < at implies !fits(#[trigger] items[j]) by {
        assert(!hit(items[j]));
    }
}

pub open spec fn is_archive(id: Seq<char>) -> spec_fn(ArchivedAgentSession) -> bool {
    |a: ArchivedAgentSession| a.archive_id@ == id
}

/// A pane runs the very session: its source, its agent and its reference.
pub open spec fn runs_this(session: AgentSessionInfo) -> spec_fn(LivePane) -> bool {
    |p: LivePane|
        p.session is Some && p.session->0.source@ == session.source@ && p.session->0.agent@
            == session.agent@ && p.session->0.session_ref.kind == session.session_ref.kind
            && p.session->0.session_ref.value@ == session.session_ref.value@
}

pub open spec fn is_workspace(id: Seq<char>) -> spec_fn(OpenWorkspace) -> bool {
    |w: OpenWorkspace| w.id@ == id
}

pub open spec fn is_of_project(key: Seq<char>) -> spec_fn(OpenWorkspace) -> bool {
    |w: OpenWorkspace| w.project_key is Some && w.project_key->0@ == key
}

/// A session is looked for among the archives by its archive's id, among the panes by what they run,
/// and its workspace by its id; where that is closed, by the project of the archive.
pub proof fn sessions_are_looked_for_where_they_were(
    archives: Seq<ArchivedAgentSession>,
    id: Seq<char>,
    panes: Seq<LivePane>,
    session: AgentSessionInfo,
    workspaces: Seq<OpenWorkspace>,
    archive: ArchivedAgentSession,
)
    ensures
        is_first(archives, is_archive(id), archive_place(archives, id)),
        is_first(panes, runs_this(session), live_place(panes, session)),
        (exists|j: int|
            0 <= j < workspaces.len() && (#[trigger] workspaces[j]).id@ == archive.workspace_id@)
            ==> is_first(
            workspaces,
            is_workspace(archive.workspace_id@),
            workspace_place(workspaces, archive),
        ),
        (forall|j: int|
            0 <= j < workspaces.len() ==> (#[trigger] workspaces[j]).id@ != archive.workspace_id@)
            && archive.project_identity is Some ==> is_first(
            workspaces,
            is_of_project(archive.project_identity->0.key@),
            workspace_place(workspaces, archive),
        ),
        (forall|j: int|
            0 <= j < workspaces.len() ==> (#[trigger] workspaces[j]).id@ != archive.workspace_id@)
            && archive.project_identity is None ==> workspace_place(workspaces, archive)
            == workspaces.len(),
{
    lemma_is_first(archives, has_archive_id(id), is_archive(id));
    lemma_is_first(panes, runs_session(session), runs_this(session));
    let by_id = |workspace: OpenWorkspace| workspace.id@ == archive.workspace_id@;
    lemma_is_first(workspaces, by_id, is_workspace(archive.workspace_id@));
    let at = first_hit(workspaces, by_id, 0);
    if at < workspaces.len() {
        assert(is_workspace(archive.workspace_id@)(workspaces[at]));
        assert(workspaces[at].id@ == archive.workspace_id@);
    } else {
        assert forall|j: int| 0 <= j < workspaces.len() implies (#[trigger] workspaces[j]).id@
            != archive.workspace_id@ by {
            assert(!is_workspace(archive.workspace_id@)(workspaces[j]));
        }
    }
    if let Some(project) = archive.project_identity {
        let by_key = |workspace: OpenWorkspace|
            workspace.project_key is Some && workspace.project_key->0@ == project.key@;
        lemma_is_first(workspaces, by_key, is_of_project(project.key@));
    }
}

/// A session comes back where it ran; where that is gone, at the root of its project; where that is
/// gone too, at home; and without a home at the root of the file system.
pub proof fn sessions_come_back_where_they_ran(archive: ArchivedAgentSession, places: Places)
    ensures
        places.cwd_exists ==> cwd_of(archive, places) == archive.cwd@,
        !places.cwd_exists && archive.project_root is Some && places.project_root_exists ==> cwd_of(
            archive,
            places,
        ) == archive.project_root->0@,
        !places.cwd_exists && (archive.project_root is None || !places.project_root_exists)
            && places.home is Some ==> cwd_of(archive, places) == places.home->0@,
        !places.cwd_exists && (archive.project_root is None || !places.project_root_exists)
            && places.home is None ==> cwd_of(archive, places) == "/"@,
{
}

/// What a placement restores: the tab's own name before the session's title, and the group of checkouts
/// where what lies there is still of the same project.
pub proof fn placements_restore_names(archive: ArchivedAgentSession, key: Option<Seq<char>>)
    ensures
        archive.tab_name is Some ==> restored_tab_name(archive) == archive.tab_name,
        archive.tab_name is None ==> restored_tab_name(archive) == archive.title,
        archive.worktree_space is None ==> restored_space(archive, key) is None,
        archive.worktree_space matches Some(space) ==> (key == Some(space.key@) ==> restored_space(
            archive,
            key,
        ) == Some(space)) && (key != Some(space.key@) ==> restored_space(archive, key) is None),
{
}

/// A session that came back is shown first, then saved, then told of: as a new workspace where one was
/// made for it, as a new tab otherwise, and last among the archives.
pub proof fn sessions_that_came_back_are_settled(placement: Placement, pane_id: u64)
    ensures
        ({
            let steps = settling(placement, pane_id);
            &&& steps.len() == 5
            &&& steps[0] == (FollowUp::FocusPane { ws_idx: placement.ws_idx, pane_id })
            &&& steps[1] is TerminalMode
            &&& steps[2] is SaveSession
            &&& placement.workspace is Some ==> steps[3] == (FollowUp::WorkspaceOpened {
                ws_idx: placement.ws_idx,
            })
            &&& placement.workspace is None ==> steps[3] == (FollowUp::TabCreated {
                ws_idx: placement.ws_idx,
                tab_idx: placement.tab_idx,
            })
            &&& steps[4] is ArchivesChanged
            &&& showing(placement.ws_idx, pane_id) == steps.take(2)
        }),
{
    assert(showing(placement.ws_idx, pane_id) =~= settling(placement, pane_id).take(2));
}

/// An archive that came back names its pane and is no longer closed; all else of it stays.
pub proof fn reopened_archives_name_their_pane(archive: ArchivedAgentSession, pane: String)
    ensures
        reopened(archive, pane).active_pane_id == Some(pane),
        reopened(archive, pane).closed_at is None,
        reopened(archive, pane) == (ArchivedAgentSession {
            active_pane_id: Some(pane),
            closed_at: None,
            ..archive
        }),
{
}

} // verus!
