//! What becomes of what is typed into the client's terminal.

use crate::client::attach::{
    attach_input, attach_input_action, AttachInput, AttachInputAction, AttachScrollDirection,
    AttachScrollSource, RawInputEvent,
};
use crate::client::paste::{
    bridge_clipboard_image, bridges, dropped_file_bytes, dropped_image,
    image_path_from_terminal_drop, should_bridge_clipboard_image_paste, ClipboardBridge, LimitedRead,
};
use vstd::prelude::*;

verus! {

/// What is done about some input.
#[allow(inconsistent_fields)]
#[derive(Debug, PartialEq, Eq)]
pub enum InputStep {
    /// Nothing is sent.
    Nothing,
    /// The server is told to scroll the terminal that is attached to.
    Scroll {
        source: AttachScrollSource,
        direction: AttachScrollDirection,
        lines: u16,
        column: Option<u16>,
        row: Option<u16>,
        modifiers: u8,
    },
    /// The clipboard is searched for an image; then `clipboard_read` goes on.
    ReadClipboard { data: Vec<u8> },
    /// The file is read; then `file_read` goes on.
    ReadFile { path: String, extension: &'static str, data: Vec<u8> },
    /// An image is sent in place of the input.
    Image { extension: String, data: Vec<u8> },
    /// The input is sent as it is.
    Input { data: Vec<u8> },
}

/// What is done about some input, with bytes and texts as sequences.
#[verifier::ext_equal]
pub enum Step {
    Nothing,
    Scroll(AttachInput),
    ReadClipboard { data: Seq<u8> },
    ReadFile { path: Seq<char>, extension: Seq<char>, data: Seq<u8> },
    Image { extension: Seq<char>, data: Seq<u8> },
    Input { data: Seq<u8> },
}

impl View for InputStep {
    type V = Step;

    open spec fn view(&self) -> Step {
        match *self {
            InputStep::Nothing => Step::Nothing,
            InputStep::Scroll { source, direction, lines, column, row, modifiers } => Step::Scroll(
                AttachInputAction::Scroll { source, direction, lines, column, row, modifiers }@,
            ),
            InputStep::ReadClipboard { data } => Step::ReadClipboard { data: data@ },
            InputStep::ReadFile { path, extension, data } => Step::ReadFile {
                path: path@,
                extension: extension@,
                data: data@,
            },
            InputStep::Image { extension, data } => Step::Image {
                extension: extension@,
                data: data@,
            },
            InputStep::Input { data } => Step::Input { data: data@ },
        }
    }
}

/// Input that asks for no clipboard: a file may have been dropped, or it is sent as it is.
pub open spec fn plain_step(data: Seq<u8>, is_remote_client: bool) -> Step {
    match dropped_image(data, is_remote_client) {
        Some((path, extension)) => Step::ReadFile { path, extension, data },
        None => Step::Input { data },
    }
}

/// Input that is meant for the server.
pub open spec fn forwarded_step(
    data: Seq<u8>,
    events: Seq<RawInputEvent>,
    is_remote_client: bool,
    is_paste_key: bool,
) -> Step {
    if bridges(data, is_remote_client, events, is_paste_key) {
        Step::ReadClipboard { data }
    } else {
        plain_step(data, is_remote_client)
    }
}

/// What is done about some input. In an attached terminal the wheel and the page keys scroll it.
pub open spec fn typed_step(
    attached: bool,
    data: Seq<u8>,
    events: Seq<RawInputEvent>,
    viewport_rows: u16,
    mouse_scroll_lines: usize,
    is_remote_client: bool,
    is_paste_key: bool,
) -> Step {
    if attached {
        match attach_input(data, events, viewport_rows, mouse_scroll_lines) {
            AttachInput::Forward(bytes) => forwarded_step(
                bytes,
                events,
                is_remote_client,
                is_paste_key,
            ),
            AttachInput::Swallow => Step::Nothing,
            scrolled => Step::Scroll(scrolled),
        }
    } else {
        forwarded_step(data, events, is_remote_client, is_paste_key)
    }
}

fn without_clipboard(data: Vec<u8>, is_remote_client: bool) -> (r: InputStep)
    ensures
        r@ == plain_step(data@, is_remote_client),
{
    match image_path_from_terminal_drop(data.as_slice(), is_remote_client) {
        Some((path, extension)) => InputStep::ReadFile { path, extension, data },
        None => InputStep::Input { data },
    }
}

fn forwarded(
    data: Vec<u8>,
    events: &Vec<RawInputEvent>,
    is_remote_client: bool,
    is_paste_key: bool,
) -> (r: InputStep)
    ensures
        r@ == forwarded_step(data@, events@, is_remote_client, is_paste_key),
{
    if should_bridge_clipboard_image_paste(data.as_slice(), is_remote_client, events, is_paste_key) {
        InputStep::ReadClipboard { data }
    } else {
        without_clipboard(data, is_remote_client)
    }
}

/// What the client does to its own terminal about some input.
#[derive(Debug, Clone, Copy, PartialEq, Eq, Structural)]
pub struct HostResponse {
    /// Everything is drawn again.
    pub full_redraw: bool,
    /// The terminal is asked for its colours.
    pub query_theme: bool,
}

/// What the client does to its own terminal about some input. `surface_redraw` and `theme_changed`
/// say whether the input tells that the terminal was covered or changed its colours. An attached
/// terminal takes all input for itself.
pub fn host_response(attached: bool, surface_redraw: bool, theme_changed: bool) -> (r: HostResponse)
    ensures
        r.full_redraw == (!attached && surface_redraw),
        r.query_theme == (!attached && theme_changed),
{
    HostResponse {
        full_redraw: !attached && surface_redraw,
        query_theme: !attached && theme_changed,
    }
}

/// What is done about some input. `events` are what it stands for; in an attached terminal the input
/// has been through its escapes.
pub fn input_came(
    attached: bool,
    data: Vec<u8>,
    events: &Vec<RawInputEvent>,
    viewport_rows: u16,
    mouse_scroll_lines: usize,
    is_remote_client: bool,
    is_paste_key: bool,
) -> (r: InputStep)
    ensures
        r@ == typed_step(
            attached,
            data@,
            events@,
            viewport_rows,
            mouse_scroll_lines,
            is_remote_client,
            is_paste_key,
        ),
{
    if !attached {
        return forwarded(data, events, is_remote_client, is_paste_key);
    }
    match attach_input_action(data, events, viewport_rows, mouse_scroll_lines) {
        AttachInputAction::Forward(bytes) => forwarded(
            bytes,
            events,
            is_remote_client,
            is_paste_key,
        ),
        AttachInputAction::Scroll { source, direction, lines, column, row, modifiers } =>
            InputStep::Scroll { source, direction, lines, column, row, modifiers },
        AttachInputAction::Swallow => InputStep::Nothing,
    }
}

/// What is done once the clipboard was searched: an image that is not too large is sent, a larger
/// one is not, and without one the input is taken as it is.
pub fn clipboard_read(
    data: Vec<u8>,
    image: Option<(String, Vec<u8>)>,
    max: usize,
    is_remote_client: bool,
) -> (r: InputStep)
    ensures
        r@ == (match image {
            Some((extension, bytes)) => if bytes@.len() > max {
                Step::Nothing
            } else {
                Step::Image { extension: extension@, data: bytes@ }
            },
            None => plain_step(data@, is_remote_client),
        }),
{
    match image {
        Some((extension, bytes)) => match bridge_clipboard_image(Some(bytes.len()), max) {
            ClipboardBridge::Send => InputStep::Image { extension, data: bytes },
            _ => InputStep::Nothing,
        },
        None => without_clipboard(data, is_remote_client),
    }
}

/// What is done once the dropped file was read: its bytes are sent as an image, or the input is sent
/// as it is.
pub fn file_read(data: Vec<u8>, extension: &str, is_file: bool, read: LimitedRead) -> (r: InputStep)
    ensures
        r@ == (match read {
            LimitedRead::Complete(bytes) if is_file => Step::Image {
                extension: extension@,
                data: bytes@,
            },
            _ => Step::Input { data: data@ },
        }),
{
    match dropped_file_bytes(is_file, read) {
        Some(bytes) => InputStep::Image { extension: extension.to_owned(), data: bytes },
        None => InputStep::Input { data },
    }
}

/// A client whose server is on the same machine, and which has no key for pasting images and is
/// attached to no terminal, sends everything as it is typed.
pub proof fn local_input_is_sent_as_it_is(
    data: Seq<u8>,
    events: Seq<RawInputEvent>,
    viewport_rows: u16,
    mouse_scroll_lines: usize,
)
    ensures
        typed_step(false, data, events, viewport_rows, mouse_scroll_lines, false, false)
            == (Step::Input { data }),
{
}

} // verus!
