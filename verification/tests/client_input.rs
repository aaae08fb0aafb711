//! What becomes of what is typed.

use herdr::client::attach::{AttachScrollDirection, AttachScrollSource, MouseKind, RawInputEvent};
use herdr::client::paste::LimitedRead;
use herdr::client::typed::{clipboard_read, file_read, host_response, input_came};
use herdr::client::typed::{HostResponse, InputStep};
use herdr::input::{KeyCode, KeyModifiers, TerminalKey};

fn typed(data: &[u8], events: Vec<RawInputEvent>, remote: bool, paste_key: bool) -> InputStep {
    input_came(false, data.to_vec(), &events, 24, 3, remote, paste_key)
}

fn key(c: char) -> RawInputEvent {
    RawInputEvent::Key(TerminalKey::new(KeyCode::Char(c), KeyModifiers::none()))
}

#[test]
fn local_input_goes_to_the_server_as_it_is() {
    let drop = b"/tmp/shot.png\n".to_vec();
    assert_eq!(typed(&drop, Vec::new(), false, false), InputStep::Input { data: drop.clone() });
    let empty_paste = b"\x1b[200~\x1b[201~".to_vec();
    assert_eq!(
        typed(&empty_paste, Vec::new(), false, false),
        InputStep::Input { data: empty_paste.clone() }
    );
}

#[test]
fn remote_client_looks_for_images() {
    let empty_paste = b"\x1b[200~\x1b[201~".to_vec();
    assert_eq!(
        typed(&empty_paste, Vec::new(), true, false),
        InputStep::ReadClipboard { data: empty_paste.clone() }
    );
    assert_eq!(
        typed(b"v", vec![key('v')], true, true),
        InputStep::ReadClipboard { data: b"v".to_vec() }
    );
    assert_eq!(
        typed(b"v", vec![key('v')], true, false),
        InputStep::Input { data: b"v".to_vec() }
    );
    assert_eq!(
        typed(b"'/tmp/my shot.PNG'\r\n", Vec::new(), true, false),
        InputStep::ReadFile {
            path: "/tmp/my shot.PNG".to_string(),
            extension: "png",
            data: b"'/tmp/my shot.PNG'\r\n".to_vec(),
        }
    );
}

#[test]
fn attached_terminal_is_scrolled_by_the_wheel() {
    let wheel = RawInputEvent::Mouse {
        kind: MouseKind::ScrollUp,
        column: 4,
        row: 5,
        modifiers: 0,
    };
    let step = input_came(true, b"\x1b[<64;5;6M".to_vec(), &vec![wheel], 24, 3, false, false);
    assert_eq!(
        step,
        InputStep::Scroll {
            source: AttachScrollSource::Wheel,
            direction: AttachScrollDirection::Up,
            lines: 3,
            column: Some(4),
            row: Some(5),
            modifiers: 0,
        }
    );
    let plain = input_came(true, b"ls".to_vec(), &vec![key('l'), key('s')], 24, 3, false, false);
    assert_eq!(plain, InputStep::Input { data: b"ls".to_vec() });
}

#[test]
fn clipboard_image_is_sent_unless_it_is_too_large() {
    let image = || Some(("png".to_string(), vec![1, 2, 3]));
    assert_eq!(
        clipboard_read(b"v".to_vec(), image(), 3, true),
        InputStep::Image { extension: "png".to_string(), data: vec![1, 2, 3] }
    );
    assert_eq!(clipboard_read(b"v".to_vec(), image(), 2, true), InputStep::Nothing);
    assert_eq!(
        clipboard_read(b"v".to_vec(), None, 2, true),
        InputStep::Input { data: b"v".to_vec() }
    );
}

#[test]
fn dropped_file_is_sent_where_it_could_be_read_whole() {
    let data = b"/tmp/a.gif".to_vec();
    let sent = InputStep::Image { extension: "gif".to_string(), data: vec![7] };
    assert_eq!(file_read(data.clone(), "gif", true, LimitedRead::Complete(vec![7])), sent);
    let kept = InputStep::Input { data: data.clone() };
    assert_eq!(file_read(data.clone(), "gif", false, LimitedRead::Complete(vec![7])), kept);
    assert_eq!(file_read(data.clone(), "gif", true, LimitedRead::Oversized), kept);
    assert_eq!(file_read(data.clone(), "gif", true, LimitedRead::Empty), kept);
    assert_eq!(file_read(data, "gif", true, LimitedRead::Failed), kept);
}

#[test]
fn only_the_full_client_answers_for_its_own_terminal() {
    let response = |full_redraw, query_theme| HostResponse { full_redraw, query_theme };
    assert_eq!(host_response(false, true, false), response(true, false));
    assert_eq!(host_response(false, false, true), response(false, true));
    assert_eq!(host_response(true, true, true), response(false, false));
}
