//! The dialog that creates a workspace.

use herdr::federation::directory::FederationView;
use herdr::federation::endpoint::{EndpointConnectionStatus, EndpointState};
use herdr::federation::endpoint::FederationEndpointConfig;
use herdr::input::{KeyCode, KeyEvent, KeyModifiers};
use herdr::workspace_creation::{workspace_server_status, Created, CreatedWorkspace, Mode};
use herdr::workspace_creation::{Submission, WorkspaceCreateStep, WorkspaceDialog};

/// The dialog with the members that it can offer.
struct App {
    dialog: WorkspaceDialog,
    federation: FederationView,
    member_id: String,
    member_label: Option<String>,
}

fn test_app() -> App {
    App {
        dialog: WorkspaceDialog {
            create: None,
            yank: String::new(),
            mode: Mode::Navigate,
            submit_requested: false,
        },
        federation: FederationView::new(),
        member_id: "local".into(),
        member_label: None,
    }
}

impl App {
    fn open(&mut self) {
        let states = self.federation.federation_states(&self.member_id);
        let (member_id, label) = (self.member_id.clone(), self.member_label.clone());
        self.dialog.open_workspace_create_dialog(&member_id, &label, Some("/home".into()), &states);
    }

    fn press(&mut self, code: KeyCode, modifiers: KeyModifiers) {
        self.dialog.handle_workspace_create_key(KeyEvent::new(code, modifiers), false);
    }

    fn control(&mut self, c: char) {
        self.press(KeyCode::Char(c), KeyModifiers::control());
    }

    fn enter(&mut self) {
        self.press(KeyCode::Enter, KeyModifiers::none());
    }

    fn step(&self) -> WorkspaceCreateStep {
        self.dialog.create.as_ref().unwrap().step
    }
}

fn add_endpoint(app: &mut App, id: &str, label: &str, status: EndpointConnectionStatus) {
    let mut state = EndpointState::configured(FederationEndpointConfig {
        id: id.into(),
        target: format!("{id}.example"),
        label: Some(label.into()),
        session: "default".into(),
        enabled: true,
    });
    state.status = status;
    app.federation.watched.insert(state);
}

#[test]
fn dialog_starts_with_server_and_lists_federation_members() {
    let mut app = test_app();
    app.member_id = "x1".into();
    app.member_label = Some("Local".into());
    add_endpoint(&mut app, "stl-agents-1", "STL Agents", EndpointConnectionStatus::Connected);
    add_endpoint(&mut app, "tana", "Tana", EndpointConnectionStatus::Disconnected);

    app.open();

    let create = app.dialog.create.as_ref().unwrap();
    assert_eq!(app.dialog.mode, Mode::NewWorkspace);
    assert_eq!(create.step, WorkspaceCreateStep::Server);
    assert_eq!(create.servers.len(), 3);
    assert_eq!(create.servers[0].member_id, "x1");
    assert_eq!(create.servers[1].label, "STL Agents");
    assert_eq!(create.servers[2].label, "Tana");
}

#[test]
fn emacs_keys_drive_server_directory_and_after_creation_steps() {
    let mut app = test_app();
    add_endpoint(&mut app, "stl-agents-1", "STL Agents", EndpointConnectionStatus::Connected);
    app.open();

    app.control('n');
    assert_eq!(app.dialog.create.as_ref().unwrap().selected_server, 1);
    app.enter();
    assert_eq!(app.step(), WorkspaceCreateStep::Directory);
    assert!(app.dialog.insert_workspace_create_text("/srv/projects/herdr"));
    app.control('n');
    assert_eq!(app.step(), WorkspaceCreateStep::AfterCreation);
    assert!(app.dialog.create.as_ref().unwrap().open_after_creation);

    app.control('f');
    assert!(!app.dialog.create.as_ref().unwrap().open_after_creation);
    app.control('p');
    assert_eq!(app.step(), WorkspaceCreateStep::Directory);
    app.control('p');
    assert_eq!(app.step(), WorkspaceCreateStep::Server);
    app.control('g');
    assert!(app.dialog.create.is_none());
}

#[test]
fn disconnected_server_cannot_advance_to_directory() {
    let mut app = test_app();
    add_endpoint(&mut app, "tana", "Tana", EndpointConnectionStatus::Disconnected);
    app.open();
    app.control('n');
    app.enter();

    let create = app.dialog.create.as_ref().unwrap();
    assert_eq!(create.step, WorkspaceCreateStep::Server);
    assert!(create.error.as_deref().unwrap().contains("disconnected"));
}

#[test]
fn enter_on_final_step_queues_creation_without_bypassing_modal_state() {
    let mut app = test_app();
    app.open();
    app.enter();
    assert!(app.dialog.insert_workspace_create_text("/tmp/new-project"));
    app.enter();
    app.enter();

    let create = app.dialog.create.as_ref().unwrap();
    assert!(create.creating);
    assert!(app.dialog.submit_requested);
}

#[test]
fn a_local_workspace_is_created_here() {
    let mut app = test_app();
    app.open();
    app.enter();
    app.control('a');
    app.control('k');
    assert!(app.dialog.insert_workspace_create_text("/tmp/new-project"));
    app.enter();
    app.enter();
    let submission = app.dialog.submit_workspace_create(&app.federation);
    assert_eq!(
        submission,
        Submission::Local { cwd: "/tmp/new-project".into(), focus: true }
    );
    app.dialog.close_workspace_create_dialog(true);
    assert!(app.dialog.create.is_none());
    assert_eq!(app.dialog.mode, Mode::Terminal);
}

#[test]
fn a_member_is_asked_for_its_workspace() {
    let mut app = test_app();
    add_endpoint(&mut app, "tana", "Tana", EndpointConnectionStatus::Connected);
    app.open();
    app.control('n');
    app.enter();
    assert!(app.dialog.insert_workspace_create_text("/srv/x"));
    app.enter();
    app.enter();
    let Submission::Federated { endpoint, cwd, open, .. } =
        app.dialog.submit_workspace_create(&app.federation)
    else {
        panic!("expected the member to be asked");
    };
    assert_eq!(endpoint.id, "tana");
    assert_eq!(cwd, "/srv/x");
    assert!(open);

    let answer = Ok(Some(CreatedWorkspace { workspace_id: "w7".into(), label: "x".into() }));
    let Created::Open { workspace_id, .. } =
        app.dialog.federated_workspace_created("tana", open, answer, true)
    else {
        panic!("expected the workspace to be opened");
    };
    assert_eq!(workspace_id, "w7");
    assert!(app.dialog.create.is_none());
}

#[test]
fn a_workspace_in_the_background_gives_the_screen_back() {
    let mut app = test_app();
    add_endpoint(&mut app, "tana", "Tana", EndpointConnectionStatus::Connected);
    app.open();
    let answer = Ok(Some(CreatedWorkspace { workspace_id: "w7".into(), label: "x".into() }));
    assert_eq!(
        app.dialog.federated_workspace_created("tana", false, answer, true),
        Created::Background { echo: "Created x on tana in the background.".into() }
    );
    assert_eq!(app.dialog.mode, Mode::Terminal);
    app.open();
    assert_eq!(
        app.dialog.federated_workspace_created("tana", true, Ok(None), true),
        Created::Refused
    );
}

#[test]
fn a_refusal_keeps_the_dialog_open() {
    let mut app = test_app();
    add_endpoint(&mut app, "tana", "Tana", EndpointConnectionStatus::Connected);
    app.open();
    app.control('n');
    app.enter();
    assert!(app.dialog.insert_workspace_create_text("/srv/x"));
    app.enter();
    app.enter();
    let refused =
        app.dialog.federated_workspace_created("tana", true, Err("no room".into()), false);
    assert_eq!(refused, Created::Refused);
    let create = app.dialog.create.as_ref().unwrap();
    assert!(!create.creating);
    assert!(create.error.as_deref().unwrap().contains("no room"));
}

#[test]
fn nothing_is_submitted_without_a_dialog() {
    let mut app = test_app();
    assert_eq!(app.dialog.submit_workspace_create(&app.federation), Submission::Nothing);
    assert!(!app.dialog.insert_workspace_create_text("x"));
}

#[test]
fn every_status_has_a_word() {
    assert_eq!(workspace_server_status(EndpointConnectionStatus::Connected), "connected");
    assert_eq!(workspace_server_status(EndpointConnectionStatus::Disabled), "disabled");
}
