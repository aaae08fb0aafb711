//! Agent sessions that outlive their panes.

use crate::schema::{same_option, AgentSessionInfo, AgentSessionRef, ArchivedAgentInfo, SessionRefKind};
use crate::text::same_text;
use vstd::prelude::*;

verus! {

/// The project that a workspace belongs to.
#[derive(Debug, PartialEq, Eq)]
pub struct WorkspaceProjectIdentity {
    pub key: String,
    pub label: String,
}

impl Clone for WorkspaceProjectIdentity {
    fn clone(&self) -> (r: Self)
        ensures
            r == *self,
    {
        WorkspaceProjectIdentity { key: self.key.clone(), label: self.label.clone() }
    }
}

/// The group of checkouts that a workspace belongs to.
#[derive(Debug, PartialEq, Eq)]
pub struct WorktreeSpaceMembership {
    pub checkout_path: String,
    pub key: String,
}

impl Clone for WorktreeSpaceMembership {
    fn clone(&self) -> (r: Self)
        ensures
            r == *self,
    {
        WorktreeSpaceMembership { checkout_path: self.checkout_path.clone(), key: self.key.clone() }
    }
}

/// The agent's own name for a session.
#[derive(Debug, PartialEq, Eq)]
pub struct ArchivedAgentSessionRef {
    pub kind: SessionRefKind,
    pub value: String,
}

impl Clone for ArchivedAgentSessionRef {
    fn clone(&self) -> (r: Self)
        ensures
            r == *self,
    {
        ArchivedAgentSessionRef { kind: self.kind, value: self.value.clone() }
    }
}

/// The command that resumes an agent's session.
#[derive(Debug, PartialEq, Eq)]
pub struct AgentResumePlan {
    pub argv: Vec<String>,
}

/// An agent session, and where it ran.
#[derive(Debug, PartialEq, Eq)]
pub struct ArchivedAgentSession {
    pub archive_id: String,
    pub source: Option<String>,
    pub agent: String,
    pub session_ref: Option<ArchivedAgentSessionRef>,
    pub title: Option<String>,
    pub label: Option<String>,
    pub agent_name: Option<String>,
    pub cwd: String,
    pub project_root: Option<String>,
    pub workspace_id: String,
    pub workspace_name: Option<String>,
    pub project_identity: Option<WorkspaceProjectIdentity>,
    pub worktree_space: Option<WorktreeSpaceMembership>,
    pub tab_name: Option<String>,
    pub last_user_activity_at: Option<u64>,
    pub last_agent_activity_at: Option<u64>,
    pub closed_at: Option<u64>,
    pub active_pane_id: Option<String>,
}

/// The agent's session that an archive stands for: known where its source and its reference are.
pub open spec fn archived_session(archive: ArchivedAgentSession) -> Option<AgentSessionInfo> {
    match (archive.source, archive.session_ref) {
        (Some(source), Some(session)) => Some(
            AgentSessionInfo {
                source,
                agent: archive.agent,
                session_ref: AgentSessionRef { kind: session.kind, value: session.value },
            },
        ),
        _ => None,
    }
}

impl ArchivedAgentSession {
    /// What makes two archives the same session: the source, the agent and the agent's reference.
    pub fn dedupe_key(&self) -> (r: Option<AgentSessionInfo>)
        ensures
            r == archived_session(*self),
    {
        match (&self.source, &self.session_ref) {
            (Some(source), Some(session)) => Some(
                AgentSessionInfo {
                    source: source.clone(),
                    agent: self.agent.clone(),
                    session_ref: AgentSessionRef {
                        kind: session.kind,
                        value: session.value.clone(),
                    },
                },
            ),
            _ => None,
        }
    }

    /// How the session is resumed. `planned` is the plan that the agents' resume table has for it;
    /// there is none where the session is not known.
    pub fn resume_plan(&self, planned: Option<AgentResumePlan>) -> (r: Option<AgentResumePlan>)
        ensures
            r == (if archived_session(*self) is Some {
                planned
            } else {
                None
            }),
    {
        if self.source.is_some() && self.session_ref.is_some() {
            planned
        } else {
            None
        }
    }

    /// Whether no pane runs the session.
    pub fn is_closed(&self) -> (r: bool)
        ensures
            r == (self.active_pane_id is None),
    {
        self.active_pane_id.is_none()
    }
}

/// How the session list shows an archive. `resumable` says whether a resume command is known.
pub open spec fn archive_info(
    archive: ArchivedAgentSession,
    member_id: String,
    resumable: bool,
) -> ArchivedAgentInfo {
    ArchivedAgentInfo {
        archive_id: archive.archive_id,
        member_id,
        agent: archive.agent,
        title: archive.title,
        label: archive.label,
        cwd: archive.cwd,
        workspace_id: archive.workspace_id,
        workspace_name: archive.workspace_name,
        project_key: match archive.project_identity {
            Some(project) => Some(project.key),
            None => None,
        },
        project_name: match archive.project_identity {
            Some(project) => Some(project.label),
            None => None,
        },
        tab_name: archive.tab_name,
        resumable,
        active_pane_id: archive.active_pane_id,
        last_user_activity_at: archive.last_user_activity_at,
        last_agent_activity_at: archive.last_agent_activity_at,
        closed_at: archive.closed_at,
    }
}

/// How the session list shows an archive.
pub fn archived_agent_info(archive: &ArchivedAgentSession, member_id: &String, resumable: bool) -> (r:
    ArchivedAgentInfo)
    ensures
        r == archive_info(*archive, *member_id, resumable),
{
    let (project_key, project_name) = match &archive.project_identity {
        Some(project) => (Some(project.key.clone()), Some(project.label.clone())),
        None => (None, None),
    };
    ArchivedAgentInfo {
        archive_id: archive.archive_id.clone(),
        member_id: member_id.clone(),
        agent: archive.agent.clone(),
        title: same_option(&archive.title),
        label: same_option(&archive.label),
        cwd: archive.cwd.clone(),
        workspace_id: archive.workspace_id.clone(),
        workspace_name: same_option(&archive.workspace_name),
        project_key,
        project_name,
        tab_name: same_option(&archive.tab_name),
        resumable,
        active_pane_id: same_option(&archive.active_pane_id),
        last_user_activity_at: archive.last_user_activity_at,
        last_agent_activity_at: archive.last_agent_activity_at,
        closed_at: archive.closed_at,
    }
}

/// A point of the system's clock.
#[verifier::external_type_specification]
#[verifier::external_body]
pub struct ExSystemTime(std::time::SystemTime);

/// `SystemTime::now` reads the system's clock. Nothing is claimed of what it shows.
pub assume_specification[ std::time::SystemTime::now ]() -> std::time::SystemTime;

/// `SystemTime::duration_since` gives the time from the Unix epoch to `now`, here in whole
/// milliseconds; it fails for a time before the epoch. What a time holds is not visible, so nothing
/// is claimed of the result.
#[verifier::external_body]
fn millis_since_epoch(now: std::time::SystemTime) -> Option<u128> {
    match now.duration_since(std::time::UNIX_EPOCH) {
        Ok(elapsed) => Some(elapsed.as_millis()),
        Err(_) => None,
    }
}

/// A time in milliseconds since the epoch: zero before the epoch, and never more than a `u64`
/// holds.
pub fn unix_ms(elapsed: Option<u128>) -> (r: u64)
    ensures
        r == match elapsed {
            Some(millis) => if millis <= u64::MAX {
                millis as int
            } else {
                u64::MAX as int
            },
            None => 0,
        },
{
    match elapsed {
        Some(millis) => if millis <= u64::MAX as u128 {
            millis as u64
        } else {
            u64::MAX
        },
        None => 0,
    }
}

/// The time now, in milliseconds since the epoch.
pub fn unix_ms_now() -> u64 {
    unix_ms(millis_since_epoch(std::time::SystemTime::now()))
}

/// Whether two sessions are one.
pub fn same_session(a: &AgentSessionInfo, b: &AgentSessionInfo) -> (r: bool)
    ensures
        r == sessions_match(*a, *b),
{
    same_text(a.source.as_str(), b.source.as_str()) && same_text(a.agent.as_str(), b.agent.as_str())
        && a.session_ref.kind == b.session_ref.kind && same_text(
        a.session_ref.value.as_str(),
        b.session_ref.value.as_str(),
    )
}

pub open spec fn sessions_match(a: AgentSessionInfo, b: AgentSessionInfo) -> bool {
    &&& a.source@ == b.source@
    &&& a.agent@ == b.agent@
    &&& a.session_ref.kind == b.session_ref.kind
    &&& a.session_ref.value@ == b.session_ref.value@
}

/// An archive stands for a session only where its source and its reference are both known, and then for
/// exactly that one.
pub proof fn archives_stand_for_their_sessions(archive: ArchivedAgentSession)
    ensures
        archive.source is None || archive.session_ref is None ==> archived_session(archive) is None,
        archive.source is Some && archive.session_ref is Some ==> ({
            let session = archived_session(archive)->0;
            &&& archived_session(archive) is Some
            &&& session.source == archive.source->0
            &&& session.agent == archive.agent
            &&& session.session_ref.kind == archive.session_ref->0.kind
            &&& session.session_ref.value == archive.session_ref->0.value
        }),
{
}

/// The list shows an archive with all that is known of it.
pub proof fn archives_are_listed_as_they_are(
    archive: ArchivedAgentSession,
    member_id: String,
    resumable: bool,
)
    ensures
        ({
            let info = archive_info(archive, member_id, resumable);
            &&& info.archive_id == archive.archive_id && info.member_id == member_id
            &&& info.agent == archive.agent && info.title == archive.title && info.label
                == archive.label
            &&& info.cwd == archive.cwd && info.workspace_id == archive.workspace_id
                && info.workspace_name == archive.workspace_name
            &&& archive.project_identity matches Some(project) ==> info.project_key == Some(
                project.key,
            ) && info.project_name == Some(project.label)
            &&& archive.project_identity is None ==> info.project_key is None
                && info.project_name is None
            &&& info.tab_name == archive.tab_name && info.resumable == resumable
            &&& info.active_pane_id == archive.active_pane_id && info.closed_at == archive.closed_at
            &&& info.last_user_activity_at == archive.last_user_activity_at
            &&& info.last_agent_activity_at == archive.last_agent_activity_at
        }),
{
}

/// Two sessions are the same where source, agent and reference are.
pub proof fn sessions_are_told_apart(a: AgentSessionInfo, b: AgentSessionInfo)
    ensures
        sessions_match(a, b) == (a.source@ == b.source@ && a.agent@ == b.agent@
            && a.session_ref.kind == b.session_ref.kind && a.session_ref.value@
            == b.session_ref.value@),
{
}

} // verus!
