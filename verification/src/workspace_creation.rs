//! The dialog that creates a workspace: which server, which directory, and what comes after.

use crate::federation::directory::FederationView;
use crate::federation::endpoint::{
    EndpointConnectionStatus, EndpointState, FederationEndpointConfig,
};
use crate::input::{KeyCode, KeyEvent, KeyModifiers};
use crate::schema::{same_option, PaneInfo};
use crate::search::{first_hit, lemma_first_hit};
use crate::text::{
    char_is_control, char_is_whitespace, is_control, is_core, lemma_trimmed, opt_text, trim, trimmed,
};
use crate::text_input::{
    action_for_key, commands_keep_fields_well_formed, every_field_is_well_formed, key_action,
    Field, TextInputAction, TextInputState,
};
use vstd::prelude::*;

verus! {

/// Where a workspace can be created.
#[derive(Debug, PartialEq, Eq)]
pub enum WorkspaceCreateServerKind {
    Local,
    Federation { endpoint_id: String },
}

/// A server that the dialog lists.
#[derive(Debug, PartialEq, Eq)]
pub struct WorkspaceCreateServer {
    pub kind: WorkspaceCreateServerKind,
    pub member_id: String,
    pub label: String,
    pub status: EndpointConnectionStatus,
    pub suggested_directory: Option<String>,
}

#[derive(Debug, Clone, Copy, PartialEq, Eq, Structural)]
pub enum WorkspaceCreateStep {
    Server,
    Directory,
    AfterCreation,
}

/// The open dialog.
#[derive(Debug, PartialEq, Eq)]
pub struct WorkspaceCreateState {
    pub servers: Vec<WorkspaceCreateServer>,
    pub selected_server: usize,
    pub step: WorkspaceCreateStep,
    pub directory: String,
    pub directory_input: TextInputState,
    pub open_after_creation: bool,
    pub error: Option<String>,
    pub creating: bool,
}

/// What the keys go to.
#[derive(Debug, Clone, Copy, PartialEq, Eq, Structural)]
pub enum Mode {
    NewWorkspace,
    Terminal,
    Navigate,
}

/// The dialog, if it is open, and what it shares with the rest of the interface.
#[derive(Debug, PartialEq, Eq)]
pub struct WorkspaceDialog {
    pub create: Option<WorkspaceCreateState>,
    /// The text last killed in a text field.
    pub yank: String,
    pub mode: Mode,
    /// The dialog asked for the workspace to be created.
    pub submit_requested: bool,
}

/// The open dialog, with its texts and lists as sequences and its directory as a field.
#[verifier::ext_equal]
pub struct Create {
    pub servers: Seq<WorkspaceCreateServer>,
    pub selected: int,
    pub step: WorkspaceCreateStep,
    pub field: Field,
    pub open_after: bool,
    pub error: Option<Seq<char>>,
    pub creating: bool,
}

impl View for WorkspaceCreateState {
    type V = Create;

    open spec fn view(&self) -> Create {
        Create {
            servers: self.servers@,
            selected: self.selected_server as int,
            step: self.step,
            field: self.directory_input.field(self.directory@),
            open_after: self.open_after_creation,
            error: opt_text(self.error),
            creating: self.creating,
        }
    }
}

/// The dialog's part of the interface.
#[verifier::ext_equal]
pub struct Dialog {
    pub create: Option<Create>,
    pub yank: Seq<char>,
    pub mode: Mode,
    pub submit: bool,
}

pub open spec fn opt_create(create: Option<WorkspaceCreateState>) -> Option<Create> {
    match create {
        Some(state) => Some(state@),
        None => None,
    }
}

impl View for WorkspaceDialog {
    type V = Dialog;

    open spec fn view(&self) -> Dialog {
        Dialog {
            create: opt_create(self.create),
            yank: self.yank@,
            mode: self.mode,
            submit: self.submit_requested,
        }
    }
}

/// How a server's status is worded.
pub open spec fn status_words(status: EndpointConnectionStatus) -> Seq<char> {
    match status {
        EndpointConnectionStatus::Disabled => "disabled"@,
        EndpointConnectionStatus::Connecting => "connecting"@,
        EndpointConnectionStatus::Connected => "connected"@,
        EndpointConnectionStatus::Disconnected => "disconnected"@,
        EndpointConnectionStatus::Incompatible => "incompatible"@,
    }
}

/// How a server's status is worded.
pub fn workspace_server_status(status: EndpointConnectionStatus) -> (r: &'static str)
    ensures
        r@ == status_words(status),
{
    match status {
        EndpointConnectionStatus::Disabled => "disabled",
        EndpointConnectionStatus::Connecting => "connecting",
        EndpointConnectionStatus::Connected => "connected",
        EndpointConnectionStatus::Disconnected => "disconnected",
        EndpointConnectionStatus::Incompatible => "incompatible",
    }
}

pub open spec fn is_focused() -> spec_fn(PaneInfo) -> bool {
    |pane: PaneInfo| pane.focused
}

/// The directory of the focused pane, or of the first one where none is focused.
pub open spec fn suggested(panes: Seq<PaneInfo>) -> Option<String> {
    let focused = first_hit(panes, is_focused(), 0);
    if panes.len() == 0 {
        None
    } else {
        let pane = if focused < panes.len() {
            panes[focused]
        } else {
            panes[0]
        };
        if pane.foreground_cwd is Some {
            pane.foreground_cwd
        } else {
            pane.cwd
        }
    }
}

/// An endpoint, as the dialog lists it.
pub open spec fn server_of(state: EndpointState) -> WorkspaceCreateServer {
    WorkspaceCreateServer {
        kind: WorkspaceCreateServerKind::Federation { endpoint_id: state.endpoint.id },
        member_id: state.endpoint.id,
        label: match state.endpoint.label {
            Some(label) => label,
            None => state.endpoint.id,
        },
        status: state.status,
        suggested_directory: match state.snapshot {
            Some(snapshot) => suggested(snapshot.panes@),
            None => None,
        },
    }
}

/// This server, as the dialog lists it.
pub open spec fn local_server(
    member_id: String,
    member_label: Option<String>,
    directory: Option<String>,
) -> WorkspaceCreateServer {
    WorkspaceCreateServer {
        kind: WorkspaceCreateServerKind::Local,
        member_id,
        label: match member_label {
            Some(label) => label,
            None => member_id,
        },
        status: EndpointConnectionStatus::Connected,
        suggested_directory: directory,
    }
}

fn suggested_directory(panes: &Vec<PaneInfo>) -> (r: Option<String>)
    ensures
        r == suggested(panes@),
{
    let mut at: usize = 0;
    while at < panes.len() && !panes[at].focused
        invariant
            at <= panes@.len(),
            first_hit(panes@, is_focused(), 0) == first_hit(panes@, is_focused(), at as int),
        decreases panes@.len() - at,
    {
        at += 1;
    }
    if panes.len() == 0 {
        return None;
    }
    let pane = if at < panes.len() {
        &panes[at]
    } else {
        &panes[0]
    };
    if pane.foreground_cwd.is_some() {
        same_option(&pane.foreground_cwd)
    } else {
        same_option(&pane.cwd)
    }
}

fn listed_server(state: &EndpointState) -> (r: WorkspaceCreateServer)
    ensures
        r == server_of(*state),
{
    let label = match &state.endpoint.label {
        Some(label) => label.clone(),
        None => state.endpoint.id.clone(),
    };
    let suggested_directory = match &state.snapshot {
        Some(snapshot) => suggested_directory(&snapshot.panes),
        None => None,
    };
    WorkspaceCreateServer {
        kind: WorkspaceCreateServerKind::Federation { endpoint_id: state.endpoint.id.clone() },
        member_id: state.endpoint.id.clone(),
        label,
        status: state.status,
        suggested_directory,
    }
}

/// Up, or `C-p`.
pub open spec fn goes_up(key: KeyEvent) -> bool {
    key.code == KeyCode::Up || (key.code == KeyCode::Char('p') && key.modifiers
        == KeyModifiers::control())
}

/// Down, or `C-n`.
pub open spec fn goes_down(key: KeyEvent) -> bool {
    key.code == KeyCode::Down || (key.code == KeyCode::Char('n') && key.modifiers
        == KeyModifiers::control())
}

/// Left, right, `C-b` or `C-f`.
pub open spec fn goes_sideways(key: KeyEvent) -> bool {
    key.code == KeyCode::Left || key.code == KeyCode::Right || ((key.code == KeyCode::Char('b')
        || key.code == KeyCode::Char('f')) && key.modifiers == KeyModifiers::control())
}

/// Escape, or `C-g`.
pub open spec fn cancels(key: KeyEvent) -> bool {
    key.code == KeyCode::Esc || (key.code == KeyCode::Char('g') && key.modifiers
        == KeyModifiers::control())
}

/// The character that a key types.
pub open spec fn typed(key: KeyEvent) -> Option<char> {
    match key.code {
        KeyCode::Char(c) if (key.modifiers == KeyModifiers::none() || key.modifiers
            == KeyModifiers::shift()) && !char_is_control(c) => Some(c),
        _ => None,
    }
}

impl Create {
    /// The server is chosen: on to the directory, with the suggested one selected for replacement.
    pub open spec fn to_directory(self) -> Create {
        if 0 <= self.selected < self.servers.len() {
            let server = self.servers[self.selected];
            if server.status != EndpointConnectionStatus::Connected {
                Create {
                    error: Some(
                        server.label@ + " is "@ + status_words(server.status)
                            + "; reconnect it before creating a workspace"@,
                    ),
                    ..self
                }
            } else {
                let text = match server.suggested_directory {
                    Some(directory) => directory@,
                    None => Seq::empty(),
                };
                let field = Field { text, cursor: text.len() as int, mark: None };
                Create {
                    field: if text.len() > 0 {
                        field.applied(TextInputAction::SelectAll, ""@).0
                    } else {
                        field
                    },
                    step: WorkspaceCreateStep::Directory,
                    error: None,
                    ..self
                }
            }
        } else {
            self
        }
    }

    /// The directory is chosen, unless it is blank.
    pub open spec fn to_action(self) -> Create {
        let text = trimmed(self.field.text);
        if text.len() == 0 {
            Create { error: Some("Choose or enter a directory on this server."@), ..self }
        } else {
            Create {
                field: Field { text, cursor: text.len() as int, mark: None },
                step: WorkspaceCreateStep::AfterCreation,
                error: None,
                ..self
            }
        }
    }

    /// A key on the list of servers.
    pub open spec fn server_key(self, key: KeyEvent) -> Create {
        if goes_up(key) {
            Create {
                selected: if self.selected > 0 {
                    self.selected - 1
                } else {
                    0
                },
                error: None,
                ..self
            }
        } else if goes_down(key) {
            let last = if self.servers.len() > 0 {
                self.servers.len() - 1
            } else {
                0
            };
            Create {
                selected: if self.selected + 1 < last {
                    self.selected + 1
                } else {
                    last
                },
                error: None,
                ..self
            }
        } else if key.code == KeyCode::Enter {
            self.to_directory()
        } else {
            self
        }
    }

    /// A key on what comes after, short of confirming.
    pub open spec fn after_key(self, key: KeyEvent) -> Create {
        if goes_up(key) {
            Create { step: WorkspaceCreateStep::Directory, ..self }
        } else if goes_sideways(key) {
            Create { open_after: !self.open_after, ..self }
        } else if key.code == KeyCode::Enter {
            Create { creating: true, error: None, ..self }
        } else {
            self
        }
    }
}

/// A key in the directory field: the dialog after it, and the text that it killed.
pub open spec fn directory_key(create: Create, key: KeyEvent, yank: Seq<char>) -> (
    Create,
    Option<Seq<char>>,
) {
    if goes_up(key) {
        (Create { step: WorkspaceCreateStep::Server, error: None, ..create }, None)
    } else if goes_down(key) || key.code == KeyCode::Enter {
        (create.to_action(), None)
    } else if key_action(key) is Some {
        let (field, killed) = create.field.applied(key_action(key)->0, yank);
        (Create { field, error: None, ..create }, killed)
    } else {
        match typed(key) {
            Some(c) => (
                Create { field: create.field.with_inserted(seq![c]), error: None, ..create },
                None,
            ),
            None => (create, None),
        }
    }
}

/// The mode without the dialog.
pub open spec fn resting_mode(has_active: bool) -> Mode {
    if has_active {
        Mode::Terminal
    } else {
        Mode::Navigate
    }
}

/// The interface after a key.
pub open spec fn pressed(d: Dialog, key: KeyEvent, has_active: bool) -> Dialog {
    match d.create {
        None => if cancels(key) {
            Dialog { mode: resting_mode(has_active), ..d }
        } else {
            d
        },
        Some(create) => if create.creating {
            d
        } else if cancels(key) {
            Dialog { create: None, mode: resting_mode(has_active), ..d }
        } else {
            match create.step {
                WorkspaceCreateStep::Server => Dialog {
                    create: Some(create.server_key(key)),
                    ..d
                },
                WorkspaceCreateStep::Directory => {
                    let (next, killed) = directory_key(create, key, d.yank);
                    Dialog {
                        create: Some(next),
                        yank: match killed {
                            Some(text) => text,
                            None => d.yank,
                        },
                        ..d
                    }
                },
                WorkspaceCreateStep::AfterCreation => Dialog {
                    create: Some(create.after_key(key)),
                    submit: d.submit || (key.code == KeyCode::Enter && !goes_up(key)
                        && !goes_sideways(key)),
                    ..d
                },
            }
        },
    }
}

/// The dialog after a failed creation.
pub open spec fn failed(d: Dialog, message: Seq<char>) -> Dialog {
    match d.create {
        Some(create) => Dialog {
            create: Some(
                Create {
                    creating: false,
                    error: Some(message),
                    step: WorkspaceCreateStep::AfterCreation,
                    ..create
                },
            ),
            ..d
        },
        None => d,
    }
}

fn is_control_key(key: KeyEvent, c: char) -> (r: bool)
    ensures
        r == (key.code == KeyCode::Char(c) && key.modifiers == KeyModifiers::control()),
{
    key.code == KeyCode::Char(c) && key.modifiers == KeyModifiers::control()
}

fn is_up(key: KeyEvent) -> (r: bool)
    ensures
        r == goes_up(key),
{
    key.code == KeyCode::Up || is_control_key(key, 'p')
}

fn is_down(key: KeyEvent) -> (r: bool)
    ensures
        r == goes_down(key),
{
    key.code == KeyCode::Down || is_control_key(key, 'n')
}

fn is_sideways(key: KeyEvent) -> (r: bool)
    ensures
        r == goes_sideways(key),
{
    key.code == KeyCode::Left || key.code == KeyCode::Right || is_control_key(key, 'b')
        || is_control_key(key, 'f')
}

fn typed_char(key: KeyEvent) -> (r: Option<char>)
    ensures
        r == typed(key),
{
    match key.code {
        KeyCode::Char(c) => if (key.modifiers == KeyModifiers::none() || key.modifiers
            == KeyModifiers::shift()) && !is_control(c) {
            Some(c)
        } else {
            None
        },
        _ => None,
    }
}

/// What creating the workspace takes.
#[derive(Debug, PartialEq, Eq)]
pub enum Submission {
    /// There is nothing to create.
    Nothing,
    /// The workspace is to be created here; then the dialog is closed.
    Local { cwd: String, focus: bool },
    /// The workspace is asked of an endpoint. It is opened later if `open` says so.
    Federated {
        endpoint: FederationEndpointConfig,
        request_id: String,
        cwd: String,
        open: bool,
    },
    /// The dialog says why there is no workspace.
    Refused,
}

/// A workspace that an endpoint created.
#[derive(Debug, PartialEq, Eq)]
pub struct CreatedWorkspace {
    pub workspace_id: String,
    pub label: String,
}

/// What follows an endpoint's answer.
#[derive(Debug, PartialEq, Eq)]
pub enum Created {
    /// The dialog says why there is no workspace.
    Refused,
    /// The workspace is opened; where that cannot be asked for, `echo` is shown.
    Open { workspace_id: String, echo: String },
    /// The workspace stays in the background.
    Background { echo: String },
}

impl WorkspaceCreateState {
    fn advance_to_directory(&mut self)
        ensures
            final(self)@ == old(self)@.to_directory(),
    {
        if self.selected_server >= self.servers.len() {
            return;
        }
        let server = &self.servers[self.selected_server];
        if server.status != EndpointConnectionStatus::Connected {
            let mut text = server.label.clone();
            text.append(" is ");
            text.append(workspace_server_status(server.status));
            text.append("; reconnect it before creating a workspace");
            self.error = Some(text);
            return;
        }
        let directory = match &server.suggested_directory {
            Some(directory) => directory.clone(),
            None => String::new(),
        };
        let ghost plain = Field {
            text: directory@,
            cursor: directory@.len() as int,
            mark: None,
        };
        self.directory_input = TextInputState::at_end(directory.as_str());
        self.directory = directory;
        if self.directory.as_str().unicode_len() > 0 {
            self.directory_input.apply(&mut self.directory, TextInputAction::SelectAll, "");
            proof {
                commands_keep_fields_well_formed(plain, TextInputAction::SelectAll, ""@);
            }
        }
        self.step = WorkspaceCreateStep::Directory;
        self.error = None;
    }

    fn advance_to_action(&mut self)
        ensures
            final(self)@ == old(self)@.to_action(),
    {
        let text = trim(self.directory.as_str());
        if text.as_str().unicode_len() == 0 {
            self.error = Some("Choose or enter a directory on this server.".to_owned());
            return;
        }
        self.directory_input.move_to_end(text.as_str());
        self.directory = text;
        self.step = WorkspaceCreateStep::AfterCreation;
        self.error = None;
    }

    fn handle_server_key(&mut self, key: KeyEvent)
        ensures
            final(self)@ == old(self)@.server_key(key),
    {
        if is_up(key) {
            if self.selected_server > 0 {
                self.selected_server -= 1;
            }
            self.error = None;
        } else if is_down(key) {
            let last: usize = if self.servers.len() > 0 {
                self.servers.len() - 1
            } else {
                0
            };
            self.selected_server = if self.selected_server < last {
                self.selected_server + 1
            } else {
                last
            };
            self.error = None;
        } else if key.code == KeyCode::Enter {
            self.advance_to_directory();
        }
    }

    fn insert(&mut self, text: &str)
        ensures
            final(self)@ == (Create {
                field: old(self)@.field.with_inserted(text@),
                error: None,
                ..old(self)@
            }),
    {
        let ghost f = self@.field;
        self.directory_input.insert_str(&mut self.directory, text);
        self.error = None;
        proof {
            every_field_is_well_formed(old(self).directory_input, old(self).directory@);
        }
    }

    fn handle_directory_key(&mut self, key: KeyEvent, yank: &str) -> (r: Option<String>)
        ensures
            final(self)@ == directory_key(old(self)@, key, yank@).0,
            opt_text(r) == directory_key(old(self)@, key, yank@).1,
    {
        if is_up(key) {
            self.step = WorkspaceCreateStep::Server;
            self.error = None;
            return None;
        }
        if is_down(key) || key.code == KeyCode::Enter {
            self.advance_to_action();
            return None;
        }
        match action_for_key(key) {
            Some(action) => {
                let ghost f = self@.field;
                let killed = self.directory_input.apply(&mut self.directory, action, yank);
                self.error = None;
                proof {
                    every_field_is_well_formed(old(self).directory_input, old(self).directory@);
                    commands_keep_fields_well_formed(f, action, yank@);
                }
                return killed;
            },
            None => {},
        }
        if let Some(c) = typed_char(key) {
            let mut text = String::new();
            text.push(c);
            assert(text@ =~= seq![c]);
            self.insert(text.as_str());
        }
        None
    }

    fn handle_after_creation_key(&mut self, key: KeyEvent) -> (r: bool)
        ensures
            final(self)@ == old(self)@.after_key(key),
            r == (key.code == KeyCode::Enter && !goes_up(key) && !goes_sideways(key)),
    {
        if is_up(key) {
            self.step = WorkspaceCreateStep::Directory;
            false
        } else if is_sideways(key) {
            self.open_after_creation = !self.open_after_creation;
            false
        } else if key.code == KeyCode::Enter {
            self.creating = true;
            self.error = None;
            true
        } else {
            false
        }
    }
}

impl WorkspaceDialog {
    /// Opens the dialog on the list of servers: this one first, then the endpoints.
    pub fn open_workspace_create_dialog(
        &mut self,
        member_id: &String,
        member_label: &Option<String>,
        local_directory: Option<String>,
        states: &Vec<EndpointState>,
    )
        ensures
            final(self)@ == (Dialog {
                create: Some(
                    Create {
                        servers: seq![
                            local_server(*member_id, *member_label, local_directory),
                        ] + Seq::new(states@.len(), |i: int| server_of(states@[i])),
                        selected: 0,
                        step: WorkspaceCreateStep::Server,
                        field: Field { text: Seq::empty(), cursor: 0, mark: None },
                        open_after: true,
                        error: None,
                        creating: false,
                    },
                ),
                mode: Mode::NewWorkspace,
                ..old(self)@
            }),
    {
        let label = match member_label {
            Some(label) => label.clone(),
            None => member_id.clone(),
        };
        let local = WorkspaceCreateServer {
            kind: WorkspaceCreateServerKind::Local,
            member_id: member_id.clone(),
            label,
            status: EndpointConnectionStatus::Connected,
            suggested_directory: local_directory,
        };
        let ghost first = local_server(*member_id, *member_label, local_directory);
        assert(local == first);
        let mut servers: Vec<WorkspaceCreateServer> = Vec::new();
        servers.push(local);
        let mut i: usize = 0;
        while i < states.len()
            invariant
                i <= states@.len(),
                servers@.len() == i + 1,
                servers@[0] == first,
                forall|k: int| 0 <= k < i ==> #[trigger] servers@[k + 1] == server_of(states@[k]),
            decreases states@.len() - i,
        {
            let ghost before = servers@;
            servers.push(listed_server(&states[i]));
            assert forall|k: int| 0 <= k < i + 1 implies #[trigger] servers@[k + 1] == server_of(
                states@[k],
            ) by {
                if k < i {
                    assert(before[k + 1] == server_of(states@[k]));
                }
            }
            i += 1;
        }
        proof {
            let listed = seq![first] + Seq::new(states@.len(), |i: int| server_of(states@[i]));
            assert forall|k: int| 0 <= k < servers@.len() implies servers@[k] == listed[k] by {
                if k > 0 {
                    let p = k - 1;
                    assert(servers@[p + 1] == server_of(states@[p]));
                }
            }
            assert(servers@ =~= listed);
        }
        self.create = Some(
            WorkspaceCreateState {
                servers,
                selected_server: 0,
                step: WorkspaceCreateStep::Server,
                directory: String::new(),
                directory_input: TextInputState::default(),
                open_after_creation: true,
                error: None,
                creating: false,
            },
        );
        self.mode = Mode::NewWorkspace;
    }

    /// Closes the dialog.
    pub fn close_workspace_create_dialog(&mut self, has_active: bool)
        ensures
            final(self)@ == (Dialog { create: None, mode: resting_mode(has_active), ..old(self)@ }),
    {
        self.create = None;
        self.mode = if has_active {
            Mode::Terminal
        } else {
            Mode::Navigate
        };
    }

    /// Takes a key. `has_active` says whether a workspace is focused.
    pub fn handle_workspace_create_key(&mut self, key: KeyEvent, has_active: bool)
        ensures
            final(self)@ == pressed(old(self)@, key, has_active),
    {
        if let Some(create) = &self.create {
            if create.creating {
                return;
            }
        }
        if key.code == KeyCode::Esc || is_control_key(key, 'g') {
            self.close_workspace_create_dialog(has_active);
            return;
        }
        let mut taken = None;
        std::mem::swap(&mut self.create, &mut taken);
        if let Some(mut create) = taken {
            match create.step {
                WorkspaceCreateStep::Server => create.handle_server_key(key),
                WorkspaceCreateStep::Directory => {
                    if let Some(killed) = create.handle_directory_key(key, self.yank.as_str()) {
                        self.yank = killed;
                    }
                },
                WorkspaceCreateStep::AfterCreation => {
                    if create.handle_after_creation_key(key) {
                        self.submit_requested = true;
                    }
                },
            }
            self.create = Some(create);
        }
    }

    /// Puts pasted text into the directory; says whether it was taken.
    pub fn insert_workspace_create_text(&mut self, text: &str) -> (r: bool)
        ensures
            match old(self)@.create {
                Some(create) if create.step is Directory && !create.creating => r
                    && final(self)@ == (Dialog {
                    create: Some(
                        Create {
                            field: create.field.with_inserted(text@),
                            error: None,
                            ..create
                        },
                    ),
                    ..old(self)@
                }),
                _ => !r && final(self)@ == old(self)@,
            },
    {
        let mut taken = None;
        std::mem::swap(&mut self.create, &mut taken);
        match taken {
            Some(mut create) => {
                if create.step != WorkspaceCreateStep::Directory || create.creating {
                    self.create = Some(create);
                    return false;
                }
                create.insert(text);
                self.create = Some(create);
                true
            },
            None => false,
        }
    }

    fn workspace_create_failed(&mut self, message: String)
        ensures
            final(self)@ == failed(old(self)@, message@),
    {
        let mut taken = None;
        std::mem::swap(&mut self.create, &mut taken);
        if let Some(mut create) = taken {
            create.creating = false;
            create.error = Some(message);
            create.step = WorkspaceCreateStep::AfterCreation;
            self.create = Some(create);
        }
    }

    /// What creating the workspace takes. An endpoint that is gone or not connected is refused in
    /// the dialog.
    pub fn submit_workspace_create(&mut self, federation: &FederationView) -> (r: Submission)
        requires
            federation.wf(),
        ensures
            match old(self)@.create {
                Some(create) if 0 <= create.selected < create.servers.len() => {
                    match create.servers[create.selected].kind {
                        WorkspaceCreateServerKind::Local => {
                            &&& final(self)@ == old(self)@
                            &&& r matches Submission::Local { cwd, focus }
                            &&& cwd@ == create.field.text
                            &&& focus == create.open_after
                        },
                        WorkspaceCreateServerKind::Federation { endpoint_id } => {
                            let known = federation.shown()@;
                            let id = endpoint_id@;
                            if !known.dom().contains(id) {
                                &&& r is Refused
                                &&& final(self)@ == failed(
                                    old(self)@,
                                    "The selected federation server is no longer available."@,
                                )
                            } else if known[id].status != EndpointConnectionStatus::Connected {
                                &&& r is Refused
                                &&& final(self)@ == failed(
                                    old(self)@,
                                    "The selected federation server disconnected."@,
                                )
                            } else {
                                &&& final(self)@ == old(self)@
                                &&& r matches Submission::Federated {
                                    endpoint,
                                    request_id,
                                    cwd,
                                    open,
                                }
                                &&& endpoint == known[id].endpoint
                                &&& request_id@ == "federation:"@ + id + ":workspace:create"@
                                &&& cwd@ == create.field.text
                                &&& open == create.open_after
                            }
                        },
                    }
                },
                _ => r is Nothing && final(self)@ == old(self)@,
            },
    {
        let (endpoint_id, cwd, open) = match &self.create {
            None => return Submission::Nothing,
            Some(create) => {
                if create.selected_server >= create.servers.len() {
                    return Submission::Nothing;
                }
                match &create.servers[create.selected_server].kind {
                    WorkspaceCreateServerKind::Local => {
                        return Submission::Local {
                            cwd: create.directory.clone(),
                            focus: create.open_after_creation,
                        };
                    },
                    WorkspaceCreateServerKind::Federation { endpoint_id } => (
                        endpoint_id.clone(),
                        create.directory.clone(),
                        create.open_after_creation,
                    ),
                }
            },
        };
        let state = match federation.federation_state(endpoint_id.as_str()) {
            Some(state) => state,
            None => {
                self.workspace_create_failed(
                    "The selected federation server is no longer available.".to_owned(),
                );
                return Submission::Refused;
            },
        };
        if state.status != EndpointConnectionStatus::Connected {
            self.workspace_create_failed("The selected federation server disconnected.".to_owned());
            return Submission::Refused;
        }
        let mut request_id = "federation:".to_owned();
        request_id.append(endpoint_id.as_str());
        request_id.append(":workspace:create");
        Submission::Federated { endpoint: state.endpoint.clone(), request_id, cwd, open }
    }

    /// Takes an endpoint's answer: the workspace it created, none where it answered something
    /// else, or why the request failed.
    pub fn federated_workspace_created(
        &mut self,
        endpoint_id: &str,
        open: bool,
        answer: Result<Option<CreatedWorkspace>, String>,
        has_active: bool,
    ) -> (r: Created)
        ensures
            match answer {
                Err(error) => r is Refused && final(self)@ == failed(
                    old(self)@,
                    "Could not create the workspace on "@ + endpoint_id@ + ": "@ + error@,
                ),
                Ok(None) => r is Refused && final(self)@ == failed(
                    old(self)@,
                    "The remote server returned an unexpected workspace response."@,
                ),
                Ok(Some(workspace)) => if open {
                    &&& final(self)@ == (Dialog { create: None, ..old(self)@ })
                    &&& r matches Created::Open { workspace_id, echo }
                    &&& workspace_id == workspace.workspace_id
                    &&& echo@ == "Created "@ + workspace.label@ + " on "@ + endpoint_id@
                        + ", but could not open it yet."@
                } else {
                    &&& final(self)@ == (Dialog {
                        create: None,
                        mode: resting_mode(has_active),
                        ..old(self)@
                    })
                    &&& r matches Created::Background { echo }
                    &&& echo@ == "Created "@ + workspace.label@ + " on "@ + endpoint_id@
                        + " in the background."@
                },
            },
    {
        let workspace = match answer {
            Err(error) => {
                let mut text = "Could not create the workspace on ".to_owned();
                text.append(endpoint_id);
                text.append(": ");
                text.append(error.as_str());
                self.workspace_create_failed(text);
                return Created::Refused;
            },
            Ok(None) => {
                self.workspace_create_failed(
                    "The remote server returned an unexpected workspace response.".to_owned(),
                );
                return Created::Refused;
            },
            Ok(Some(workspace)) => workspace,
        };
        let mut echo = "Created ".to_owned();
        echo.append(workspace.label.as_str());
        echo.append(" on ");
        echo.append(endpoint_id);
        if open {
            self.create = None;
            echo.append(", but could not open it yet.");
            Created::Open { workspace_id: workspace.workspace_id, echo }
        } else {
            self.close_workspace_create_dialog(has_active);
            echo.append(" in the background.");
            Created::Background { echo }
        }
    }
}

/// Past the first step a connected server is selected, and past the second the directory is named.
pub open spec fn on_course(create: Create) -> bool {
    &&& !(create.step is Server) ==> 0 <= create.selected < create.servers.len()
        && create.servers[create.selected].status == EndpointConnectionStatus::Connected
    &&& create.step is AfterCreation ==> create.field.text.len() > 0
}

/// No key leads past a step that is not done: a workspace is only ever asked of a server that was
/// connected when it was chosen, in a directory that was named.
pub proof fn steps_are_not_skipped(d: Dialog, key: KeyEvent, has_active: bool)
    requires
        d.create is Some ==> on_course(d.create->0),
    ensures
        pressed(d, key, has_active).create is Some ==> on_course(
            pressed(d, key, has_active).create->0,
        ),
        pressed(d, key, has_active).submit && !d.submit ==> d.create is Some
            && d.create->0.step is AfterCreation && pressed(d, key, has_active).create is Some
            && pressed(d, key, has_active).create->0.creating,
{
}

/// While a workspace is being created, no key changes anything; before that, the cancelling keys
/// close the dialog from every step.
pub proof fn creation_is_modal(d: Dialog, key: KeyEvent, has_active: bool)
    requires
        d.create is Some,
    ensures
        d.create->0.creating ==> pressed(d, key, has_active) == d,
        !d.create->0.creating && cancels(key) ==> pressed(d, key, has_active).create is None,
{
}

/// The server list keeps its selection inside the list.
pub proof fn selection_stays_in_the_list(create: Create, key: KeyEvent)
    requires
        0 <= create.selected < create.servers.len(),
    ensures
        0 <= create.server_key(key).selected < create.server_key(key).servers.len(),
        create.server_key(key).servers == create.servers,
{
}

/// A key with no modifier but, perhaps, shift.
pub open spec fn unmodified(key: KeyEvent) -> bool {
    let m = key.modifiers;
    !m.control && !m.alt && !m.super_key && !m.hyper && !m.meta
}

/// A key with control and nothing else.
pub open spec fn with_control(key: KeyEvent, c: char) -> bool {
    let m = key.modifiers;
    key.code == KeyCode::Char(c) && m.control && !m.shift && !m.alt && !m.super_key && !m.hyper
        && !m.meta
}

/// The dialog is open and takes keys.
pub open spec fn takes_keys(d: Dialog, create: Create, step: WorkspaceCreateStep) -> bool {
    d.create == Some(create) && !create.creating && create.step == step
}

/// A character that is typed in the directory, with shift or without, goes into the directory as
/// pasted text does: in place of the selection, or at the cursor. An error that was shown is gone, and
/// nothing else changes.
pub proof fn typed_characters_enter_the_directory(
    d: Dialog,
    create: Create,
    key: KeyEvent,
    c: char,
    has_active: bool,
)
    requires
        takes_keys(d, create, WorkspaceCreateStep::Directory),
        key.code == KeyCode::Char(c),
        unmodified(key),
        c as u32 > 0x1f,
        !(0x7f <= c as u32 <= 0x9f),
    ensures
        pressed(d, key, has_active) == (Dialog {
            create: Some(
                Create { field: create.field.with_inserted(seq![c]), error: None, ..create },
            ),
            ..d
        }),
{
}

/// The editing keys do to the directory what they do to every text field, with the text killed last
/// to yank; what they kill is the text killed last from then on.
pub proof fn editing_keys_edit_the_directory(
    d: Dialog,
    create: Create,
    key: KeyEvent,
    has_active: bool,
)
    requires
        takes_keys(d, create, WorkspaceCreateStep::Directory),
        key_action(key) is Some,
    ensures
        ({
            let (field, killed) = create.field.applied(key_action(key)->0, d.yank);
            let after = pressed(d, key, has_active);
            &&& after.create == Some(Create { field, error: None, ..create })
            &&& killed matches Some(text) ==> after.yank == text
            &&& killed is None ==> after.yank == d.yank
            &&& after.mode == d.mode && after.submit == d.submit
        }),
{
}

/// The list of servers: up and down (or `C-p` and `C-n`) move the selection by one and stop at the
/// ends. Enter goes on to the directory if the selected server is connected, with the directory that
/// is suggested for it selected as a whole; otherwise the dialog stays and says so by the server's
/// name. Other keys do nothing.
pub proof fn the_server_list_is_walked(d: Dialog, create: Create, key: KeyEvent, has_active: bool)
    requires
        takes_keys(d, create, WorkspaceCreateStep::Server),
        0 <= create.selected < create.servers.len(),
        key.code != KeyCode::Esc,
        !with_control(key, 'g'),
    ensures
        ({
            let after = pressed(d, key, has_active);
            let server = create.servers[create.selected];
            let up = key.code == KeyCode::Up || with_control(key, 'p');
            let down = key.code == KeyCode::Down || with_control(key, 'n');
            &&& after.mode == d.mode && after.submit == d.submit && after.yank == d.yank
            &&& after.create is Some
            &&& up && create.selected > 0 ==> after.create->0 == (Create {
                selected: create.selected - 1,
                error: None,
                ..create
            })
            &&& up && create.selected == 0 ==> after.create->0 == (Create { error: None, ..create })
            &&& down && create.selected + 1 < create.servers.len() ==> after.create->0 == (Create {
                selected: create.selected + 1,
                error: None,
                ..create
            })
            &&& down && create.selected + 1 == create.servers.len() ==> after.create->0 == (Create {
                error: None,
                ..create
            })
            &&& key.code == KeyCode::Enter && server.status is Connected ==> {
                let field = after.create->0.field;
                &&& after.create->0 == (Create {
                    step: WorkspaceCreateStep::Directory,
                    field,
                    error: None,
                    ..create
                })
                &&& server.suggested_directory matches Some(directory) ==> field.text == directory@
                &&& server.suggested_directory is None ==> field.text.len() == 0
                &&& field.cursor == field.text.len()
                &&& field.text.len() > 0 ==> field.mark == Some(0int)
                &&& field.text.len() == 0 ==> field.mark is None
            }
            &&& key.code == KeyCode::Enter && !(server.status is Connected) ==> {
                &&& after.create->0 == (Create { error: after.create->0.error, ..create })
                &&& after.create->0.error is Some
                &&& exists|rest: Seq<char>| #[trigger]
                    (server.label@ + rest) == after.create->0.error->0
            }
            &&& !up && !down && key.code != KeyCode::Enter ==> after == d
        }),
{
    let server = create.servers[create.selected];
    if key.code == KeyCode::Enter && !(server.status is Connected) {
        let rest = " is "@ + status_words(server.status)
            + "; reconnect it before creating a workspace"@;
        assert(server.label@ + rest =~= pressed(d, key, has_active).create->0.error->0);
    }
}

/// Leaving the directory: up (or `C-p`) goes back to the servers and keeps what was typed; down,
/// `C-n` or enter goes on, with the white space around the directory gone, unless it is blank, which
/// the dialog says.
pub proof fn the_directory_is_left(d: Dialog, create: Create, key: KeyEvent, has_active: bool)
    requires
        takes_keys(d, create, WorkspaceCreateStep::Directory),
    ensures
        ({
            let after = pressed(d, key, has_active);
            let up = key.code == KeyCode::Up || with_control(key, 'p');
            let on = key.code == KeyCode::Down || with_control(key, 'n') || key.code
                == KeyCode::Enter;
            let blank = forall|i: int|
                0 <= i < create.field.text.len() ==> char_is_whitespace(
                    #[trigger] create.field.text[i],
                );
            &&& up ==> after == (Dialog {
                create: Some(Create { step: WorkspaceCreateStep::Server, error: None, ..create }),
                ..d
            })
            &&& on && blank ==> after == (Dialog {
                create: Some(
                    Create {
                        error: Some("Choose or enter a directory on this server."@),
                        ..create
                    },
                ),
                ..d
            })
            &&& on && !blank ==> {
                let text = after.create->0.field.text;
                &&& after.create is Some
                &&& after == (Dialog {
                    create: Some(
                        Create {
                            step: WorkspaceCreateStep::AfterCreation,
                            field: Field { text, cursor: text.len() as int, mark: None },
                            error: None,
                            ..create
                        },
                    ),
                    ..d
                })
                &&& text.len() > 0
                &&& !char_is_whitespace(text[0])
                &&& !char_is_whitespace(text.last())
                &&& exists|a: int, b: int| #[trigger]
                    is_core(create.field.text, a, b) && text == create.field.text.subrange(a, b)
            }
        }),
{
    lemma_trimmed(create.field.text);
    let t = create.field.text;
    if exists|i: int| 0 <= i < t.len() && !char_is_whitespace(#[trigger] t[i]) {
        let i = choose|i: int| 0 <= i < t.len() && !char_is_whitespace(#[trigger] t[i]);
        let (a, b) = choose|a: int, b: int| #[trigger]
            is_core(t, a, b) && trimmed(t) == t.subrange(a, b);
        assert(a <= i < b);
    }
}

/// What comes after creation: up (or `C-p`) goes back to the directory; left, right, `C-b` and `C-f`
/// choose the other way to go on; enter asks for the workspace. Other keys do nothing.
pub proof fn the_last_step_is_answered(d: Dialog, create: Create, key: KeyEvent, has_active: bool)
    requires
        takes_keys(d, create, WorkspaceCreateStep::AfterCreation),
        key.code != KeyCode::Esc,
        !with_control(key, 'g'),
    ensures
        ({
            let after = pressed(d, key, has_active);
            let up = key.code == KeyCode::Up || with_control(key, 'p');
            let aside = key.code == KeyCode::Left || key.code == KeyCode::Right || with_control(
                key,
                'b',
            ) || with_control(key, 'f');
            &&& up ==> after == (Dialog {
                create: Some(Create { step: WorkspaceCreateStep::Directory, ..create }),
                ..d
            })
            &&& aside ==> after == (Dialog {
                create: Some(Create { open_after: !create.open_after, ..create }),
                ..d
            })
            &&& key.code == KeyCode::Enter ==> after == (Dialog {
                create: Some(Create { creating: true, error: None, ..create }),
                submit: true,
                ..d
            })
            &&& !up && !aside && key.code != KeyCode::Enter ==> after == d
        }),
{
}

/// Escape and `C-g` close the dialog from every step, whatever was typed, and give the keys back to
/// the terminal, or to navigation where no workspace is focused.
pub proof fn the_dialog_is_cancelled(d: Dialog, key: KeyEvent, has_active: bool)
    requires
        key.code == KeyCode::Esc || with_control(key, 'g'),
        d.create is Some ==> !d.create->0.creating,
    ensures
        pressed(d, key, has_active) == (Dialog {
            create: None,
            mode: if has_active {
                Mode::Terminal
            } else {
                Mode::Navigate
            },
            ..d
        }),
{
}

/// A creation that failed leads back to the last step, with what was entered and the reason.
pub proof fn failures_lead_back(d: Dialog, create: Create, message: Seq<char>)
    requires
        d.create == Some(create),
    ensures
        failed(d, message) == (Dialog {
            create: Some(
                Create {
                    creating: false,
                    error: Some(message),
                    step: WorkspaceCreateStep::AfterCreation,
                    ..create
                },
            ),
            ..d
        }),
{
}

/// A member is listed by its label, or by its id where it has none, with its status. It suggests the
/// directory of the focused pane, or of its first pane where none is focused: where the pane's
/// foreground process runs, or where the pane itself does.
pub proof fn members_are_listed_as_they_are(state: EndpointState, at: int)
    ensures
        ({
            let server = server_of(state);
            let panes = state.snapshot->0.panes@;
            let chosen = 0 <= at < panes.len() && (panes[at].focused && (forall|k: int|
                0 <= k < at ==> !(#[trigger] panes[k]).focused) || at == 0 && forall|k: int|
                0 <= k < panes.len() ==> !(#[trigger] panes[k]).focused);
            &&& server.kind == (WorkspaceCreateServerKind::Federation {
                endpoint_id: state.endpoint.id,
            })
            &&& server.member_id == state.endpoint.id
            &&& state.endpoint.label matches Some(label) ==> server.label == label
            &&& state.endpoint.label is None ==> server.label == state.endpoint.id
            &&& server.status == state.status
            &&& state.snapshot is None ==> server.suggested_directory is None
            &&& state.snapshot is Some && panes.len() == 0 ==> server.suggested_directory is None
            &&& state.snapshot is Some && chosen && panes[at].foreground_cwd is Some
                ==> server.suggested_directory == panes[at].foreground_cwd
            &&& state.snapshot is Some && chosen && panes[at].foreground_cwd is None
                ==> server.suggested_directory == panes[at].cwd
        }),
{
    let panes = state.snapshot->0.panes@;
    lemma_first_hit(panes, is_focused(), 0);
    let hit = first_hit(panes, is_focused(), 0);
    if 0 <= at < panes.len() {
        if at < hit {
            assert(!is_focused()(panes[at]));
        }
        if hit < panes.len() {
            assert(panes[hit].focused);
        }
    }
}

/// This server is listed by its label, or by its id where it has none, as connected and with its own
/// directory.
pub proof fn this_server_is_listed_as_connected(
    member_id: String,
    member_label: Option<String>,
    directory: Option<String>,
)
    ensures
        ({
            let server = local_server(member_id, member_label, directory);
            &&& server.kind is Local
            &&& server.member_id == member_id
            &&& member_label matches Some(label) ==> server.label == label
            &&& member_label is None ==> server.label == member_id
            &&& server.status is Connected
            &&& server.suggested_directory == directory
        }),
{
}

} // verus!
