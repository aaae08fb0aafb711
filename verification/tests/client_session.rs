//! The client's handshake, its input and what it is told.

use herdr::client::attach::{attach_input_action, control_line, terminal_control_message};
use herdr::client::attach::{terminal_session_line, AttachEscapeState, AttachInputAction};
use herdr::client::attach::{AttachScrollDirection, AttachScrollSource, ControlMessage};
use herdr::client::attach::{ControlStep, FilteredInput, MouseKind, RawInputEvent, SessionLine};
use herdr::client::attach::{SessionOutput, TerminalControlCommand};
use herdr::client::error::{ClientError, FramingError, Surroundings};
use herdr::client::handshake::{after_local_attempt, after_read, after_remote_attempt, client_exit};
use herdr::client::handshake::{client_plan, handshake_read_timeout, hello, judge_session_encoding};
use herdr::client::handshake::{judge_welcome, launch_mode, requested_keybindings};
use herdr::client::handshake::{requested_render_encoding, ClientKeybindings, ClientLaunchMode};
use herdr::client::handshake::{HandshakeReply, ReadOutcome, ReaderStep, RenderEncoding};
use herdr::client::notify::{client_remote_image_paste_key, handle_notify};
use herdr::client::notify::{reload_local_client_config, sound_from_notify_message};
use herdr::client::notify::{toast_text, ClientSettings, Notice, Sound};
use herdr::client::paste::{bracketed_paste_payload, bridge_clipboard_image, dropped_file_bytes};
use herdr::client::paste::{image_path_from_terminal_drop, recognized_image_extension};
use herdr::client::paste::{should_bridge_clipboard_image_paste, unescape_terminal_drop_path};
use herdr::client::paste::{ClipboardBridge, LimitedRead};
use herdr::client::switching::{NotifyKind, Toast};
use herdr::input::{KeyCode, KeyModifiers, TerminalKey};

fn key(code: KeyCode, modifiers: KeyModifiers) -> RawInputEvent {
    RawInputEvent::Key(TerminalKey::new(code, modifiers))
}

#[test]
fn attach_escape_detaches_on_prefix_q() {
    let mut escape = AttachEscapeState::default();
    assert_eq!(escape.filter_input(&vec![0x02]), FilteredInput::Bytes(Vec::new()));
    assert_eq!(escape.filter_input(&vec![b'q']), FilteredInput::Detach);
}

#[test]
fn attach_escape_sends_literal_prefix_on_double_prefix() {
    let mut escape = AttachEscapeState::default();
    assert_eq!(escape.filter_input(&vec![0x02]), FilteredInput::Bytes(Vec::new()));
    assert_eq!(escape.filter_input(&vec![0x02]), FilteredInput::Bytes(vec![0x02]));
}

#[test]
fn attach_escape_forwards_prefix_before_non_escape_key() {
    let mut escape = AttachEscapeState::default();
    assert_eq!(escape.filter_input(&vec![b'a', 0x02]), FilteredInput::Bytes(b"a".to_vec()));
    assert_eq!(escape.filter_input(&vec![b'x']), FilteredInput::Bytes(vec![0x02, b'x']));
}

#[test]
fn an_escape_may_come_in_two_pieces() {
    let mut whole = AttachEscapeState::default();
    let mut pieces = AttachEscapeState::default();
    let together = whole.filter_input(&vec![b'a', 0x02, 0x02, b'b']);
    assert_eq!(together, FilteredInput::Bytes(vec![b'a', 0x02, b'b']));
    assert_eq!(pieces.filter_input(&vec![b'a', 0x02]), FilteredInput::Bytes(vec![b'a']));
    assert_eq!(pieces.filter_input(&vec![0x02, b'b']), FilteredInput::Bytes(vec![0x02, b'b']));
}

#[test]
fn no_input_sends_nothing() {
    assert_eq!(
        attach_input_action(Vec::new(), &Vec::new(), 24, 3),
        AttachInputAction::Swallow
    );
}

#[test]
fn attach_escape_turns_wheel_into_scroll_action() {
    let report = b"\x1b[<64;11;6M".to_vec();
    let events = vec![RawInputEvent::Mouse {
        kind: MouseKind::ScrollUp,
        column: 10,
        row: 5,
        modifiers: 0,
    }];
    match attach_input_action(report, &events, 24, 7) {
        AttachInputAction::Scroll { source, direction, lines, column, row, .. } => {
            assert_eq!(source, AttachScrollSource::Wheel);
            assert_eq!(direction, AttachScrollDirection::Up);
            assert_eq!(lines, 7);
            assert_eq!(column, Some(10));
            assert_eq!(row, Some(5));
        }
        other => panic!("expected scroll action, got {other:?}"),
    }
}

#[test]
fn attach_escape_swallows_non_wheel_mouse_reports() {
    let events = vec![RawInputEvent::Mouse {
        kind: MouseKind::Other,
        column: 10,
        row: 5,
        modifiers: 0,
    }];
    assert_eq!(
        attach_input_action(b"\x1b[<0;11;6M".to_vec(), &events, 24, 7),
        AttachInputAction::Swallow
    );
}

#[test]
fn attach_escape_turns_plain_page_keys_into_scroll_actions() {
    for (bytes, code, expected) in [
        (b"\x1b[5~".to_vec(), KeyCode::PageUp, AttachScrollDirection::Up),
        (b"\x1b[6~".to_vec(), KeyCode::PageDown, AttachScrollDirection::Down),
    ] {
        let events = vec![key(code, KeyModifiers::none())];
        match attach_input_action(bytes.clone(), &events, 12, 3) {
            AttachInputAction::Scroll { source, direction, lines, .. } => {
                assert_eq!(source, AttachScrollSource::PageKey { input: bytes });
                assert_eq!(direction, expected);
                assert_eq!(lines, 11);
            }
            other => panic!("expected a scroll action, got {other:?}"),
        }
    }
}

#[test]
fn attach_escape_forwards_modified_page_key() {
    let events = vec![key(KeyCode::PageUp, KeyModifiers::control())];
    assert_eq!(
        attach_input_action(b"\x1b[5;5~".to_vec(), &events, 12, 3),
        AttachInputAction::Forward(b"\x1b[5;5~".to_vec())
    );
}

#[test]
fn terminal_control_input_command_accepts_text() {
    let command = TerminalControlCommand::Input { text: Some("hello".into()), bytes: None };
    assert_eq!(
        terminal_control_message(command),
        Ok(ControlMessage::Input { data: b"hello".to_vec() })
    );
}

#[test]
fn terminal_control_input_command_accepts_base64_bytes() {
    let command = TerminalControlCommand::Input { text: None, bytes: Some("G1tB".into()) };
    assert_eq!(
        terminal_control_message(command),
        Ok(ControlMessage::Input { data: b"\x1b[A".to_vec() })
    );
}

#[test]
fn terminal_control_input_takes_at_most_one_readable_payload() {
    let both = TerminalControlCommand::Input { text: Some("a".into()), bytes: Some("YQ==".into()) };
    assert!(terminal_control_message(both).is_err());
    let neither = TerminalControlCommand::Input { text: None, bytes: None };
    assert_eq!(
        terminal_control_message(neither),
        Ok(ControlMessage::Input { data: Vec::new() })
    );
    let unreadable = TerminalControlCommand::Input { text: None, bytes: Some("!!".into()) };
    assert!(terminal_control_message(unreadable).is_err());
}

#[test]
fn terminal_control_resize_command_maps_to_client_resize() {
    let command = TerminalControlCommand::Resize {
        cols: 100,
        rows: 30,
        cell_width_px: 8,
        cell_height_px: 16,
    };
    assert_eq!(
        terminal_control_message(command),
        Ok(ControlMessage::Resize { cols: 100, rows: 30, cell_width_px: 8, cell_height_px: 16 })
    );
}

#[test]
fn a_terminal_without_cells_is_refused() {
    let command =
        TerminalControlCommand::Resize { cols: 0, rows: 30, cell_width_px: 8, cell_height_px: 16 };
    assert_eq!(
        terminal_control_message(command),
        Err("terminal.resize cols and rows must be greater than 0".into())
    );
}

#[test]
fn terminal_control_scroll_command_maps_to_attach_scroll() {
    let command = TerminalControlCommand::Scroll {
        direction: AttachScrollDirection::Up,
        lines: 3,
        page_key: false,
        column: None,
        row: None,
        modifiers: 0,
    };
    let Ok(ControlMessage::Scroll { source, direction, lines, .. }) =
        terminal_control_message(command)
    else {
        panic!("expected scroll command");
    };
    assert_eq!(source, AttachScrollSource::Wheel);
    assert_eq!(direction, AttachScrollDirection::Up);
    assert_eq!(lines, 3);
}

#[test]
fn control_lines_are_skipped_sent_or_complained_of() {
    assert_eq!(control_line("  ", Err("eof".into())), ControlStep::Skip);
    assert_eq!(
        control_line("{}", Ok(TerminalControlCommand::Release)),
        ControlStep::Send { message: ControlMessage::Detach, last: true }
    );
    let ControlStep::Complain(said) = control_line("{", Err("bad json".into())) else {
        panic!("expected a complaint");
    };
    assert!(said.contains("bad json"));
}

#[test]
fn observed_output_is_encoded_line_by_line() {
    let shown = SessionOutput::Terminal {
        seq: 1,
        width: 80,
        height: 24,
        full: true,
        bytes: b"test".to_vec(),
    };
    assert_eq!(
        terminal_session_line(shown),
        SessionLine::Frame {
            seq: 1,
            width: 80,
            height: 24,
            full: true,
            encoded: "dGVzdA==".into()
        }
    );
    assert_eq!(terminal_session_line(SessionOutput::Other), SessionLine::Nothing);
    assert_eq!(terminal_session_line(SessionOutput::Eof), SessionLine::End);
}

fn around() -> Surroundings {
    Surroundings {
        socket_path: "/run/herdr.sock".into(),
        remote_reattach: None,
        local_attach: "herdr".into(),
    }
}

#[test]
fn client_error_display_connection_failed() {
    let msg = ClientError::ConnectionFailed("connection refused".into()).message(&around());
    assert!(msg.contains("failed to connect to server"), "{msg}");
    assert!(msg.contains("herdr server"), "{msg}");
}

#[test]
fn client_error_display_handshake_rejected() {
    let err = ClientError::HandshakeRejected { version: 1, error: "incompatible".into() };
    let msg = err.message(&around());
    assert!(msg.contains("rejected handshake"), "should mention rejection: {msg}");
    assert!(msg.contains("incompatible"), "should include error: {msg}");
}

#[test]
fn client_error_display_server_shutdown() {
    let err = ClientError::ServerShutdown { reason: Some("maintenance".into()) };
    let msg = err.message(&around());
    assert!(msg.contains("server shut down"), "should mention shutdown: {msg}");
    assert!(msg.contains("maintenance"), "should include reason: {msg}");
}

#[test]
fn client_error_display_server_shutdown_no_reason() {
    let err = ClientError::ServerShutdown { reason: None };
    let msg = err.message(&around());
    assert!(msg.contains("server shut down"), "should mention shutdown: {msg}");
}

#[test]
fn client_error_display_detached_default_session_reattach_hint() {
    let err = ClientError::ServerShutdown { reason: Some("detached".into()) };
    let msg = err.message(&around());
    assert!(msg.contains("Run `herdr` to reattach"), "{msg}");
    assert!(err.is_detach());
}

#[test]
fn client_error_display_detached_named_session_reattach_hint() {
    let err = ClientError::ServerShutdown { reason: Some("detached".into()) };
    let named = Surroundings { local_attach: "herdr session attach work".into(), ..around() };
    let msg = err.message(&named);
    assert!(msg.contains("Run `herdr session attach work` to reattach"), "{msg}");
}

#[test]
fn client_error_display_detached_remote_reattach_hint_takes_precedence() {
    let err = ClientError::ServerShutdown { reason: Some("detached".into()) };
    let remote = Surroundings {
        remote_reattach: Some("herdr --remote host --session work".into()),
        local_attach: "herdr session attach work".into(),
        ..around()
    };
    let msg = err.message(&remote);
    assert!(msg.contains("Run `herdr --remote host --session work` to reattach"), "{msg}");
}

#[test]
fn client_error_display_connection_lost() {
    let msg = ClientError::ConnectionLost("broken pipe".into()).message(&around());
    assert!(msg.contains("lost connection to server"), "{msg}");
}

#[test]
fn client_error_display_remote_connection_lost_has_reattach_hint() {
    let remote = Surroundings {
        remote_reattach: Some("herdr --remote host --session work".into()),
        ..around()
    };
    let msg = ClientError::ConnectionLost("broken pipe".into()).message(&remote);
    assert!(msg.contains("lost connection to remote Herdr"), "{msg}");
    assert!(msg.contains("panes may still be running"), "{msg}");
    assert!(msg.contains("Run `herdr --remote host --session work` to reattach"), "{msg}");
}

#[test]
fn framing_errors_are_losses_or_protocol_errors() {
    assert!(matches!(
        ClientError::from_framing(FramingError::Io("reset".into())),
        ClientError::ConnectionLost(_)
    ));
    assert!(matches!(
        ClientError::from_framing(FramingError::UnexpectedEof),
        ClientError::ConnectionLost(_)
    ));
    assert!(matches!(
        ClientError::from_framing(FramingError::Other("oversized".into())),
        ClientError::Protocol(_)
    ));
}

#[test]
fn sound_from_notify_message_maps_done() {
    assert_eq!(sound_from_notify_message("agent done"), Some(Sound::Done));
}

#[test]
fn sound_from_notify_message_maps_attention() {
    assert_eq!(sound_from_notify_message("agent attention"), Some(Sound::Request));
}

#[test]
fn sound_from_notify_message_rejects_unknown_payloads() {
    assert_eq!(sound_from_notify_message("toast"), None);
}

#[test]
fn reload_local_client_config_refreshes_local_client_presentation_state() {
    let settings = |redraw: bool, draw: bool| ClientSettings {
        sound_enabled: true,
        redraw_on_focus_gained: redraw,
        draw_host_cursor: draw,
        remote_image_paste_key: None,
    };
    let mut current = settings(true, false);
    reload_local_client_config(&mut current, Some(settings(false, true)));
    assert!(!current.redraw_on_focus_gained);
    assert!(current.draw_host_cursor);
    reload_local_client_config(&mut current, None);
    assert!(current.draw_host_cursor);
}

#[test]
fn toast_notify_from_server_is_emitted_even_when_attach_config_was_off() {
    assert_eq!(
        handle_notify(NotifyKind::Toast, "pi finished".into(), Some("workspace 1".into()), false),
        Notice::Terminal { title: "pi finished".into(), body: Some("workspace 1".into()) }
    );
}

#[test]
fn system_toast_notify_from_server_uses_system_notifier() {
    assert_eq!(
        handle_notify(
            NotifyKind::SystemToast,
            "pi finished".into(),
            Some("workspace 1".into()),
            true
        ),
        Notice::System { title: "pi finished".into(), body: Some("workspace 1".into()) }
    );
}

#[test]
fn system_toast_notify_preserves_colon_in_title() {
    assert_eq!(
        handle_notify(
            NotifyKind::SystemToast,
            "build: failed".into(),
            Some("api workspace".into()),
            true
        ),
        Notice::System { title: "build: failed".into(), body: Some("api workspace".into()) }
    );
}

#[test]
fn sounds_are_played_only_when_they_are_on() {
    let sound = |enabled| handle_notify(NotifyKind::Sound, "agent done".into(), None, enabled);
    assert_eq!(sound(true), Notice::Play(Sound::Done));
    assert_eq!(sound(false), Notice::Nothing);
    let (title, body) =
        toast_text(&Toast::CouldNotOpen { endpoint_id: "tana".into(), error: "refused".into() });
    assert!(!title.is_empty());
    assert!(body.contains("refused"));
}

#[test]
fn clipboard_image_paste_bridge_triggers_on_configured_key_and_empty_paste() {
    let ctrl_v = vec![key(KeyCode::Char('v'), KeyModifiers::control())];
    let other = vec![RawInputEvent::Other];
    assert!(should_bridge_clipboard_image_paste(&[0x16], true, &ctrl_v, true));
    assert!(should_bridge_clipboard_image_paste(b"\x1b[118;5u", true, &ctrl_v, true));
    assert!(should_bridge_clipboard_image_paste(b"\x1b[200~\x1b[201~", true, &other, false));
    assert!(!should_bridge_clipboard_image_paste(b"\x1b[200~\x1b[201~", false, &other, false));
    assert!(!should_bridge_clipboard_image_paste(b"\x1b[200~text\x1b[201~", true, &other, false));
    assert!(!should_bridge_clipboard_image_paste(&[0x16], true, &ctrl_v, false));
    let v = vec![key(KeyCode::Char('v'), KeyModifiers::none())];
    assert!(!should_bridge_clipboard_image_paste(b"v", true, &v, false));
}

#[test]
fn remote_image_file_drop_bridge_reads_bracketed_absolute_image_path() {
    assert_eq!(
        image_path_from_terminal_drop(b"\x1b[200~/tmp/drop.PNG\x1b[201~", true),
        Some(("/tmp/drop.PNG".into(), "png"))
    );
    let read = LimitedRead::Complete(b"image-bytes".to_vec());
    assert_eq!(dropped_file_bytes(true, read), Some(b"image-bytes".to_vec()));
}

#[test]
fn remote_image_file_drop_bridge_reads_plain_quoted_path_with_newline() {
    assert_eq!(
        image_path_from_terminal_drop(b"'/tmp/drop.jpeg'\n", true),
        Some(("/tmp/drop.jpeg".into(), "jpg"))
    );
}

#[test]
fn remote_image_file_drop_bridge_unescapes_spaces_in_paths() {
    assert_eq!(
        image_path_from_terminal_drop(b"/tmp/herdr-client-drop-space\\ test.png", true),
        Some(("/tmp/herdr-client-drop-space test.png".into(), "png"))
    );
}

#[test]
fn remote_image_file_drop_bridge_ignores_non_remote_and_non_image_input() {
    assert_eq!(image_path_from_terminal_drop(b"/tmp/drop.png", false), None);
    assert_eq!(image_path_from_terminal_drop(b"relative.png\n", true), None);
    assert_eq!(image_path_from_terminal_drop(b"/tmp/file.txt\n", true), None);
    assert_eq!(image_path_from_terminal_drop(b"/tmp/drop.png\nextra", true), None);
    assert_eq!(image_path_from_terminal_drop(b"/tmp/\xff.png", true), None);
}

#[test]
fn dropped_files_are_bounded() {
    assert_eq!(dropped_file_bytes(false, LimitedRead::Complete(vec![1])), None);
    assert_eq!(dropped_file_bytes(true, LimitedRead::Empty), None);
    assert_eq!(dropped_file_bytes(true, LimitedRead::Oversized), None);
    assert_eq!(dropped_file_bytes(true, LimitedRead::Failed), None);
    assert_eq!(bridge_clipboard_image(Some(10), 10), ClipboardBridge::Send);
    assert_eq!(bridge_clipboard_image(Some(11), 10), ClipboardBridge::TooLarge);
    assert_eq!(bridge_clipboard_image(None, 10), ClipboardBridge::NoImage);
    assert_eq!(bracketed_paste_payload(b"\x1b[200~ab\x1b[201~"), Some(b"ab".as_slice()));
    assert_eq!(bracketed_paste_payload(b"ab"), None);
    assert_eq!(recognized_image_extension("JPEG"), Some("jpg"));
    assert_eq!(recognized_image_extension("txt"), None);
    let plain: Vec<char> = "a b".chars().collect();
    assert_eq!(unescape_terminal_drop_path(&plain), plain);
}

#[test]
fn the_hello_says_what_the_client_wants() {
    assert_eq!(requested_render_encoding(&None), RenderEncoding::SemanticFrame);
    assert_eq!(
        requested_render_encoding(&Some("terminal-ansi".into())),
        RenderEncoding::TerminalAnsi
    );
    assert_eq!(requested_keybindings(None), ClientKeybindings::Server);
    assert_eq!(
        requested_keybindings(Some("[keys]".into())),
        ClientKeybindings::Local { keys_toml: "[keys]".into() }
    );
    assert_eq!(launch_mode(false, false), ClientLaunchMode::App);
    assert_eq!(launch_mode(true, false), ClientLaunchMode::TerminalAttach);
    assert_eq!(launch_mode(false, true), ClientLaunchMode::FederationCandidate);
    assert_eq!(handshake_read_timeout(false, false), 5);
    assert_eq!(handshake_read_timeout(true, false), 60);
    let said = hello(
        7,
        (80, 24, 8, 16),
        RenderEncoding::SemanticFrame,
        ClientKeybindings::Server,
        false,
        false,
    );
    assert_eq!((said.version, said.cols, said.rows), (7, 80, 24));
    assert_eq!(said.launch_mode, ClientLaunchMode::App);
}

#[test]
fn only_a_welcome_without_an_error_is_taken() {
    let welcome = |error: Option<String>| HandshakeReply::Welcome {
        version: 7,
        encoding: RenderEncoding::TerminalAnsi,
        error,
    };
    assert_eq!(judge_welcome(welcome(None)), Ok(RenderEncoding::TerminalAnsi));
    assert_eq!(
        judge_welcome(welcome(Some("old".into()))),
        Err(ClientError::HandshakeRejected { version: 7, error: "old".into() })
    );
    assert!(judge_welcome(HandshakeReply::Unexpected).is_err());
    assert_eq!(judge_session_encoding(RenderEncoding::TerminalAnsi), Ok(()));
    assert!(judge_session_encoding(RenderEncoding::SemanticFrame).is_err());
}

#[test]
fn a_successor_is_dialled_until_the_deadline() {
    let refused = || ClientError::ConnectionFailed("refused".into());
    assert_eq!(after_local_attempt(refused(), 10, 100), Ok(25));
    assert!(after_local_attempt(refused(), 100, 100).is_err());
    assert_eq!(after_remote_attempt(refused(), 10, 100), Ok(200));
    assert_eq!(after_read(ReadOutcome::Message), ReaderStep::Forward);
    assert_eq!(after_read(ReadOutcome::WouldBlock), ReaderStep::Retry);
    assert_eq!(after_read(ReadOutcome::Eof), ReaderStep::Disconnect);
    assert_eq!(after_read(ReadOutcome::Failed), ReaderStep::Disconnect);
}

#[test]
fn a_clean_detach_is_no_failure() {
    let plan = client_plan(true, true, true, false, 10, 20);
    assert!(plan.direct_attach);
    let bye = client_exit(Ok(()));
    assert_eq!((bye.line, bye.code), (None, 0));
    let detached = ClientError::ServerShutdown { reason: Some("detached".into()) };
    assert_eq!(client_exit(Err(detached)).code, 0);
    assert_eq!(client_exit(Err(ClientError::ConnectionLost("x".into()))).code, 1);
}

#[test]
fn only_remote_clients_have_a_key_for_images() {
    let key = || Ok(Some("ctrl+v".to_string()));
    assert_eq!(client_remote_image_paste_key(true, key()), Some("ctrl+v".to_string()));
    assert_eq!(client_remote_image_paste_key(false, key()), None);
    assert_eq!(client_remote_image_paste_key(true, Ok(None)), None);
    assert_eq!(client_remote_image_paste_key(true, Err("bad key".to_string())), None);
}
