//! Runtime identities, archived agents and image previews of the server.

use herdr::agent_archive::AgentResumePlan;
use herdr::agent_archive::{archived_agent_info, unix_ms, unix_ms_now, ArchivedAgentSession};
use herdr::agent_archive::{ArchivedAgentSessionRef, WorkspaceProjectIdentity};
use herdr::agent_archive::WorktreeSpaceMembership;
use herdr::agent_reopen::{after_finding, after_reopening, FollowUp};
use herdr::agent_reopen::{after_launch, launch, mark_reopened, place_in_tab, place_in_workspace};
use herdr::agent_reopen::{plan_reopen, reopen_cwd, LivePane, OpenWorkspace, Places, ReopenPlan};
use herdr::agent_reopen::Rollback;
use herdr::order::{sort, text_at_most, TextPair};
use herdr::runtime_identity::{current, load_or_create, load_or_create_id, read_valid_id};
use herdr::runtime_identity::{set_federation_member, settle_id, IdStep, IdentityState};
use herdr::schema::SessionRefKind;
use herdr::server::image_preview::{check_file, detected_extension, load, ImagePreviewError};

const LIMIT: u64 = 8 * 1024 * 1024;

fn created(path: &str) -> (String, String) {
    match load_or_create_id(path, None) {
        IdStep::Create { id, content } => (id, content),
        other => panic!("expected a new id, got {other:?}"),
    }
}

#[test]
fn identity_is_stable_and_sessions_are_distinct() {
    let (server, server_file) = created("server-id");
    let (first_session, first_file) = created("sessions/first/session-id");
    let (second_session, _) = created("sessions/second/session-id");
    assert_ne!(first_session, second_session);
    // What was written is what is read again.
    assert_eq!(load_or_create_id("server-id", Some(&server_file)), IdStep::Use(server.clone()));
    assert_eq!(read_valid_id("session-id", &first_file), Ok(first_session.clone()));

    let first = load_or_create(server.clone(), first_session.clone(), "first".into());
    let repeated = load_or_create(server.clone(), first_session, "first".into());
    let second = load_or_create(server, second_session, "second".into());
    assert_eq!(first, repeated);
    assert_eq!(first.server_id, second.server_id);
    assert_ne!(first.session_id, second.session_id);
    assert_eq!(second.session_name, "second");
}

#[test]
fn federation_member_fields_refresh_without_replacing_runtime_ids() {
    let mut state = IdentityState {
        loaded: load_or_create("server".into(), "session".into(), "default".into()),
        member: None,
    };
    set_federation_member(&mut state, "x1".into(), "x1".into(), Some("Home".into()));
    let before = current(&state);
    set_federation_member(
        &mut state,
        "stl-agents-1".into(),
        "paul@stl-agents-1".into(),
        Some("STL Agents".into()),
    );
    let after = current(&state);
    assert_eq!(after.server_id, before.server_id);
    assert_eq!(after.session_id, before.session_id);
    assert_eq!(after.member_id, "stl-agents-1");
    assert_eq!(after.member_target, "paul@stl-agents-1");
    assert_eq!(after.member_label.as_deref(), Some("STL Agents"));
    set_federation_member(&mut state, "local".into(), String::new(), None);
}

#[test]
fn invalid_identity_is_rejected_without_replacement() {
    let step = load_or_create_id("/state/server-id", Some("not-an-id\n"));
    let IdStep::Fail(why) = step else {
        panic!("an invalid identity must fail, got {step:?}");
    };
    assert!(why.contains("/state/server-id"));
}

#[test]
fn a_file_that_appeared_meanwhile_wins() {
    let (id, content) = created("server-id");
    assert_eq!(settle_id("server-id", "mine".into(), Some(&content)), Ok(id));
    assert_eq!(settle_id("server-id", "mine".into(), None), Ok("mine".into()));
    assert!(settle_id("server-id", "mine".into(), Some("junk")).is_err());
}

#[test]
fn an_id_is_read_in_its_canonical_form() {
    assert_eq!(
        read_valid_id("id", " 67E55044-10B1-426F-9247-BB680E5FE0C8\n"),
        Ok("67e55044-10b1-426f-9247-bb680e5fe0c8".into())
    );
}

fn archive() -> ArchivedAgentSession {
    ArchivedAgentSession {
        archive_id: "archive-1".into(),
        source: Some("hook".into()),
        agent: "codex".into(),
        session_ref: Some(ArchivedAgentSessionRef { kind: SessionRefKind::Id, value: "s1".into() }),
        title: Some("review".into()),
        label: Some("mine".into()),
        agent_name: None,
        cwd: "/srv/project".into(),
        project_root: Some("/srv".into()),
        workspace_id: "w1".into(),
        workspace_name: Some("project".into()),
        project_identity: Some(WorkspaceProjectIdentity { key: "k".into(), label: "K".into() }),
        worktree_space: Some(WorktreeSpaceMembership {
            checkout_path: "/srv/project".into(),
            key: "k".into(),
        }),
        tab_name: None,
        last_user_activity_at: Some(5),
        last_agent_activity_at: Some(6),
        closed_at: Some(7),
        active_pane_id: None,
    }
}

fn places(cwd_exists: bool, project_root_exists: bool, home: Option<&str>) -> Places {
    Places { cwd_exists, project_root_exists, home: home.map(|home| home.to_string()) }
}

#[test]
fn an_archive_without_a_session_is_not_resumable() {
    assert!(archive().is_closed());
    let plan = || AgentResumePlan { argv: vec!["codex".into(), "resume".into(), "s1".into()] };
    assert_eq!(archive().resume_plan(Some(plan())), Some(plan()));
    assert_eq!(archive().resume_plan(None), None);
    let loose = ArchivedAgentSession { session_ref: None, ..archive() };
    assert_eq!(loose.dedupe_key(), None);
    assert_eq!(loose.resume_plan(Some(plan())), None);
    let info = archived_agent_info(&archive(), &"x1".to_string(), true);
    assert_eq!(info.member_id, "x1");
    assert_eq!(info.project_key.as_deref(), Some("k"));
    assert_eq!(info.project_name.as_deref(), Some("K"));
}

#[test]
fn an_agent_reopens_where_it_was() {
    assert_eq!(reopen_cwd(&archive(), &places(true, true, None)), "/srv/project");
    assert_eq!(reopen_cwd(&archive(), &places(false, true, None)), "/srv");
    assert_eq!(reopen_cwd(&archive(), &places(false, false, Some("/home/me"))), "/home/me");
    assert_eq!(reopen_cwd(&archive(), &places(false, false, None)), "/");
}

#[test]
fn reopening_prefers_a_live_pane_then_an_open_workspace() {
    let archives = vec![archive()];
    let somewhere = places(true, true, None);
    let open = |id: &str, key: Option<&str>| OpenWorkspace {
        id: id.into(),
        project_key: key.map(|key| key.to_string()),
    };
    let plan = |id: &str, panes: Vec<LivePane>, workspaces: Vec<OpenWorkspace>, resumable: bool| {
        plan_reopen(&archives, id, &panes, &workspaces, resumable, &somewhere)
    };
    assert_eq!(
        plan("nope", Vec::new(), Vec::new(), true),
        Err("archived agent nope not found".into())
    );
    let live = LivePane { ws_idx: 2, pane_id: 9, session: archive().dedupe_key() };
    assert_eq!(
        plan("archive-1", vec![live], Vec::new(), false),
        Ok(ReopenPlan::Focus { ws_idx: 2, pane_id: 9 })
    );
    assert_eq!(
        plan("archive-1", Vec::new(), Vec::new(), false),
        Err("codex session is not resumable".into())
    );
    let cwd = || "/srv/project".to_string();
    assert_eq!(
        plan("archive-1", Vec::new(), vec![open("w0", Some("k")), open("w1", None)], true),
        Ok(ReopenPlan::NewTab { ws_idx: 1, cwd: cwd() })
    );
    assert_eq!(
        plan("archive-1", Vec::new(), vec![open("w0", Some("k"))], true),
        Ok(ReopenPlan::NewTab { ws_idx: 0, cwd: cwd() })
    );
    assert_eq!(
        plan("archive-1", Vec::new(), vec![open("w0", None)], true),
        Ok(ReopenPlan::NewWorkspace { cwd: cwd() })
    );
}

#[test]
fn a_failed_launch_is_rolled_back() {
    let in_tab = place_in_tab(&archive(), 1, Ok(4)).unwrap();
    assert_eq!((in_tab.ws_idx, in_tab.tab_idx), (1, 4));
    assert_eq!(in_tab.tab_name.as_deref(), Some("review"));
    assert_eq!(
        place_in_tab(&archive(), 1, Err("no room".into())).unwrap_err(),
        "could not create a tab for codex: no room"
    );
    let fresh = place_in_workspace(&archive(), Ok(3), Some("k")).unwrap();
    assert!(fresh.workspace.as_ref().unwrap().worktree_space.is_some());
    let moved = place_in_workspace(&archive(), Ok(3), Some("other")).unwrap();
    assert!(moved.workspace.as_ref().unwrap().worktree_space.is_none());

    assert_eq!(launch(Some(5), Some("codex resume s1".into())), Ok((5, "codex resume s1\r".into())));
    assert_eq!(launch(None, Some("x".into())), Err("new archive pane has no terminal".into()));
    assert_eq!(launch(Some(5), None), Err("agent resume command is empty".into()));

    let (rollback, why) = after_launch(&archive(), &in_tab, false, true).unwrap_err();
    assert_eq!(rollback, Rollback::CloseTab { ws_idx: 1, tab_idx: 4 });
    assert_eq!(why, "could not start the archived codex session");
    let (rollback, _) = after_launch(&archive(), &fresh, false, true).unwrap_err();
    assert_eq!(rollback, Rollback::RemoveWorkspace { ws_idx: 3 });
    let restored = after_launch(&archive(), &in_tab, true, true).unwrap();
    assert_eq!(restored.idle_agent.as_deref(), Some("codex"));
    let unknown = after_launch(&archive(), &in_tab, true, false).unwrap();
    assert_eq!(unknown.idle_agent, None);
    assert_eq!(restored.manual_label.as_deref(), Some("mine"));
    assert_eq!(restored.session, archive().dedupe_key());
}

#[test]
fn a_reopened_session_is_shown_saved_and_announced() {
    let in_tab = place_in_tab(&archive(), 1, Ok(4)).unwrap();
    assert_eq!(
        after_reopening(&in_tab, 9),
        vec![
            FollowUp::FocusPane { ws_idx: 1, pane_id: 9 },
            FollowUp::TerminalMode,
            FollowUp::SaveSession,
            FollowUp::TabCreated { ws_idx: 1, tab_idx: 4 },
            FollowUp::ArchivesChanged,
        ]
    );
    let fresh = place_in_workspace(&archive(), Ok(3), Some("k")).unwrap();
    assert_eq!(
        after_reopening(&fresh, 9),
        vec![
            FollowUp::FocusPane { ws_idx: 3, pane_id: 9 },
            FollowUp::TerminalMode,
            FollowUp::SaveSession,
            FollowUp::WorkspaceOpened { ws_idx: 3 },
            FollowUp::ArchivesChanged,
        ]
    );
    assert_eq!(
        after_finding(2, 7),
        vec![FollowUp::FocusPane { ws_idx: 2, pane_id: 7 }, FollowUp::TerminalMode]
    );
}

#[test]
fn a_reopened_archive_is_live_again() {
    let mut archives = vec![archive()];
    assert_eq!(mark_reopened(&mut archives, "archive-1", Some("w1:p1".into())), Ok(()));
    assert!(!archives[0].is_closed());
    assert_eq!(archives[0].closed_at, None);
    assert_eq!(
        mark_reopened(&mut archives, "archive-1", None),
        Err("new archive pane has no public identity".into())
    );
}

#[test]
fn times_are_milliseconds_that_fit() {
    assert_eq!(unix_ms(Some(1234)), 1234);
    assert_eq!(unix_ms(None), 0);
    assert_eq!(unix_ms(Some(u128::MAX)), u64::MAX);
    assert!(unix_ms_now() > 1_600_000_000_000);
}

#[test]
fn load_uses_signature_instead_of_extension() {
    let data = b"\x89PNG\r\n\x1a\npreview".to_vec();
    assert!(check_file(true, data.len() as u64, LIMIT).is_ok());
    let preview = load(Some("generated.txt".into()), data, LIMIT).expect("load image");
    assert!(preview.name.ends_with("generated.txt"));
    assert_eq!(preview.extension, "png");
    assert_eq!(preview.data, b"\x89PNG\r\n\x1a\npreview");
}

#[test]
fn load_rejects_non_image_content() {
    assert!(matches!(
        load(Some("not-an-image.png".into()), b"not really a png".to_vec(), LIMIT),
        Err(ImagePreviewError::UnsupportedFormat)
    ));
}

#[test]
fn load_rejects_oversized_files_before_reading_them() {
    assert!(matches!(check_file(true, LIMIT + 1, LIMIT), Err(ImagePreviewError::TooLarge)));
    assert!(matches!(check_file(false, 1, LIMIT), Err(ImagePreviewError::NotAFile)));
    assert!(matches!(load(None, vec![0; 5], 4), Err(ImagePreviewError::TooLarge)));
    assert_eq!(
        ImagePreviewError::TooLarge.message(LIMIT),
        "image exceeds the 8 MiB preview limit"
    );
    assert_eq!(
        ImagePreviewError::Io("gone".into()).message(LIMIT),
        "could not read image: gone"
    );
}

#[test]
fn every_kind_of_image_is_recognized() {
    assert_eq!(detected_extension(&[0xff, 0xd8, 0xff, 0xe0]), Some("jpg"));
    assert_eq!(detected_extension(b"GIF89a"), Some("gif"));
    assert_eq!(detected_extension(b"RIFF\0\0\0\0WEBP"), Some("webp"));
    assert_eq!(detected_extension(b"BM"), Some("bmp"));
    assert_eq!(detected_extension(b""), None);
    let unnamed = load(None, b"BMx".to_vec(), LIMIT).unwrap();
    assert_eq!(unnamed.name, "image");
}

#[test]
fn texts_are_ordered_by_their_characters() {
    assert!(text_at_most("a", "ab"));
    assert!(text_at_most("ab", "b"));
    assert!(!text_at_most("b", "ab"));
    let pair = |first: &str, second: &str| TextPair { first: first.into(), second: second.into() };
    let sorted = sort(vec![pair("b", "1"), pair("a", "2"), pair("a", "1")]);
    assert_eq!(sorted, vec![pair("a", "1"), pair("a", "2"), pair("b", "1")]);
}
