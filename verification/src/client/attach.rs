//! Direct attachment to a terminal: the escape prefix, scrolling, and the commands of a controlling
//! program.

use crate::client::encoding::{base64_bytes, base64_text, decode_base64, encode_base64};
use crate::input::{KeyCode, KeyEventKind, KeyModifiers, TerminalKey};
use crate::text::opt_text;
use vstd::prelude::*;
use vstd::utf8::encode_utf8;

verus! {

/// The byte that starts an escape: `C-b`.
pub const ATTACH_PREFIX: u8 = 0x02;

/// Whether the last byte was the prefix.
#[derive(Debug, PartialEq, Eq)]
pub struct AttachEscapeState {
    pub pending_prefix: bool,
}

/// What the prefix makes of some input.
#[verifier::ext_equal]
pub struct Escaped {
    /// What is left for the terminal.
    pub output: Seq<u8>,
    /// The input ends with a prefix.
    pub pending: bool,
    /// The user detached.
    pub detach: bool,
}

pub open spec fn led(bytes: Seq<u8>, rest: Escaped) -> Escaped {
    Escaped { output: bytes + rest.output, ..rest }
}

/// The prefix and `q` detach, the prefix twice is the prefix once, and before anything else the
/// prefix stays.
pub open spec fn escaped(pending: bool, data: Seq<u8>) -> Escaped
    decreases data.len(),
{
    if data.len() == 0 {
        Escaped { output: Seq::empty(), pending, detach: false }
    } else if pending {
        if data[0] == 0x71 {
            Escaped { output: Seq::empty(), pending: false, detach: true }
        } else if data[0] == ATTACH_PREFIX {
            led(seq![ATTACH_PREFIX], escaped(false, data.skip(1)))
        } else {
            led(seq![ATTACH_PREFIX, data[0]], escaped(false, data.skip(1)))
        }
    } else if data[0] == ATTACH_PREFIX {
        escaped(true, data.skip(1))
    } else {
        led(seq![data[0]], escaped(false, data.skip(1)))
    }
}

/// Input for an attached terminal.
#[derive(Debug, PartialEq, Eq)]
pub enum FilteredInput {
    /// The user detached.
    Detach,
    /// What is left for the terminal.
    Bytes(Vec<u8>),
}

impl Default for AttachEscapeState {
    fn default() -> (r: Self)
        ensures
            !r.pending_prefix,
    {
        AttachEscapeState { pending_prefix: false }
    }
}

impl AttachEscapeState {
    /// Takes the escapes out of some input.
    pub fn filter_input(&mut self, data: &Vec<u8>) -> (r: FilteredInput)
        ensures
            ({
                let model = escaped(old(self).pending_prefix, data@);
                &&& final(self).pending_prefix == model.pending
                &&& match r {
                    FilteredInput::Detach => model.detach,
                    FilteredInput::Bytes(output) => !model.detach && output@ == model.output,
                }
            }),
    {
        let ghost model = escaped(self.pending_prefix, data@);
        let mut output: Vec<u8> = Vec::new();
        let mut i: usize = 0;
        assert(data@.skip(0) =~= data@);
        assert(led(output@, escaped(self.pending_prefix, data@)) =~= model);
        while i < data.len()
            invariant
                i <= data@.len(),
                led(output@, escaped(self.pending_prefix, data@.skip(i as int))) == model,
                model == escaped(old(self).pending_prefix, data@),
            decreases data@.len() - i,
        {
            let byte = data[i];
            let ghost rest = data@.skip(i as int);
            let ghost before = output@;
            assert(rest[0] == byte);
            assert(rest.skip(1) =~= data@.skip(i + 1));
            if self.pending_prefix {
                self.pending_prefix = false;
                if byte == 0x71 {
                    return FilteredInput::Detach;
                }
                output.push(ATTACH_PREFIX);
                if byte != ATTACH_PREFIX {
                    output.push(byte);
                }
                assert(output@ + escaped(false, data@.skip(i + 1)).output =~= before + (output@.skip(
                    before.len() as int,
                ) + escaped(false, data@.skip(i + 1)).output));
                assert(output@.skip(before.len() as int) =~= if byte == ATTACH_PREFIX {
                    seq![ATTACH_PREFIX]
                } else {
                    seq![ATTACH_PREFIX, byte]
                });
            } else if byte == ATTACH_PREFIX {
                self.pending_prefix = true;
            } else {
                output.push(byte);
                assert(output@ + escaped(false, data@.skip(i + 1)).output =~= before + (seq![byte]
                    + escaped(false, data@.skip(i + 1)).output));
            }
            i += 1;
        }
        assert(data@.skip(i as int) =~= Seq::<u8>::empty());
        assert(output@ + Seq::<u8>::empty() =~= output@);
        FilteredInput::Bytes(output)
    }
}

#[derive(Debug, Clone, Copy, PartialEq, Eq, Structural)]
pub enum AttachScrollDirection {
    Up,
    Down,
}

/// What scrolled.
#[derive(Debug, PartialEq, Eq)]
pub enum AttachScrollSource {
    Wheel,
    /// A key, and the bytes it sent.
    PageKey { input: Vec<u8> },
}

#[derive(Debug, Clone, Copy, PartialEq, Eq, Structural)]
pub enum MouseKind {
    ScrollUp,
    ScrollDown,
    Other,
}

/// A piece of input, as the input parser reads it.
#[derive(Debug, Clone, Copy, PartialEq, Eq, Structural)]
pub enum RawInputEvent {
    Mouse { kind: MouseKind, column: u16, row: u16, modifiers: u8 },
    Key(TerminalKey),
    Other,
}

/// What becomes of input for an attached terminal.
#[derive(Debug, PartialEq, Eq)]
pub enum AttachInputAction {
    Forward(Vec<u8>),
    Scroll {
        source: AttachScrollSource,
        direction: AttachScrollDirection,
        lines: u16,
        column: Option<u16>,
        row: Option<u16>,
        modifiers: u8,
    },
    /// Nothing is sent.
    Swallow,
}

/// What becomes of input, with its bytes as sequences.
#[verifier::ext_equal]
pub enum AttachInput {
    Forward(Seq<u8>),
    Scroll {
        /// The bytes of the key; none for the wheel.
        input: Option<Seq<u8>>,
        direction: AttachScrollDirection,
        lines: int,
        column: Option<u16>,
        row: Option<u16>,
        modifiers: u8,
    },
    /// Nothing is sent.
    Swallow,
}

pub open spec fn source_bytes(source: AttachScrollSource) -> Option<Seq<u8>> {
    match source {
        AttachScrollSource::Wheel => None,
        AttachScrollSource::PageKey { input } => Some(input@),
    }
}

impl View for AttachInputAction {
    type V = AttachInput;

    open spec fn view(&self) -> AttachInput {
        match *self {
            AttachInputAction::Forward(data) => AttachInput::Forward(data@),
            AttachInputAction::Scroll { source, direction, lines, column, row, modifiers } =>
                AttachInput::Scroll {
                    input: source_bytes(source),
                    direction,
                    lines: lines as int,
                    column,
                    row,
                    modifiers,
                },
            AttachInputAction::Swallow => AttachInput::Swallow,
        }
    }
}

/// The lines of a wheel notch: at least one, and no more than a message can carry.
pub open spec fn notch_lines(lines: usize) -> int {
    if lines == 0 {
        1
    } else if lines > u16::MAX {
        u16::MAX as int
    } else {
        lines as int
    }
}

/// The lines of a page: all but one of the viewport's rows, and at least one.
pub open spec fn page_lines(rows: u16) -> int {
    if rows > 2 {
        rows - 1
    } else {
        1
    }
}

/// What a single event scrolls: the wheel and the plain page keys do, other mouse reports and the
/// release of a page key are swallowed, and the rest is not for scrolling.
pub open spec fn scrolled(event: RawInputEvent, data: Seq<u8>, rows: u16, lines: usize) -> Option<
    AttachInput,
> {
    match event {
        RawInputEvent::Mouse { kind, column, row, modifiers } => match kind {
            MouseKind::Other => Some(AttachInput::Swallow),
            _ => Some(
                AttachInput::Scroll {
                    input: None,
                    direction: if kind is ScrollUp {
                        AttachScrollDirection::Up
                    } else {
                        AttachScrollDirection::Down
                    },
                    lines: notch_lines(lines),
                    column: Some(column),
                    row: Some(row),
                    modifiers,
                },
            ),
        },
        RawInputEvent::Key(key) => if key.modifiers != KeyModifiers::none() || !(key.code is PageUp
            || key.code is PageDown) {
            None
        } else if key.kind is Release {
            Some(AttachInput::Swallow)
        } else {
            Some(
                AttachInput::Scroll {
                    input: Some(data),
                    direction: if key.code is PageUp {
                        AttachScrollDirection::Up
                    } else {
                        AttachScrollDirection::Down
                    },
                    lines: page_lines(rows),
                    column: None,
                    row: None,
                    modifiers: 0,
                },
            )
        },
        RawInputEvent::Other => None,
    }
}

/// What becomes of bytes that stand for these events.
pub open spec fn attach_input(data: Seq<u8>, events: Seq<RawInputEvent>, rows: u16, lines: usize) ->
    AttachInput {
    if data.len() == 0 {
        AttachInput::Swallow
    } else if events.len() == 1 && scrolled(events[0], data, rows, lines) is Some {
        scrolled(events[0], data, rows, lines)->0
    } else {
        AttachInput::Forward(data)
    }
}

fn copy_bytes(data: &Vec<u8>) -> (r: Vec<u8>)
    ensures
        r@ == data@,
{
    let mut out: Vec<u8> = Vec::new();
    let mut i: usize = 0;
    while i < data.len()
        invariant
            i <= data@.len(),
            out@ == data@.take(i as int),
        decreases data@.len() - i,
    {
        out.push(data[i]);
        i += 1;
        assert(data@.take(i as int) =~= data@.take(i - 1).push(data@[i - 1]));
    }
    assert(data@.take(i as int) =~= data@);
    out
}

/// The scrolling that a single event asks for; none where it is not for scrolling.
pub fn attach_scroll_action(
    data: &Vec<u8>,
    events: &Vec<RawInputEvent>,
    viewport_rows: u16,
    mouse_scroll_lines: usize,
) -> (r: Option<AttachInputAction>)
    ensures
        match r {
            Some(action) => events@.len() == 1 && scrolled(
                events@[0],
                data@,
                viewport_rows,
                mouse_scroll_lines,
            ) == Some(action@),
            None => events@.len() != 1 || scrolled(
                events@[0],
                data@,
                viewport_rows,
                mouse_scroll_lines,
            ) is None,
        },
{
    if events.len() != 1 {
        return None;
    }
    match events[0] {
        RawInputEvent::Mouse { kind, column, row, modifiers } => {
            let direction = match kind {
                MouseKind::ScrollUp => AttachScrollDirection::Up,
                MouseKind::ScrollDown => AttachScrollDirection::Down,
                MouseKind::Other => return Some(AttachInputAction::Swallow),
            };
            let lines: u16 = if mouse_scroll_lines == 0 {
                1
            } else if mouse_scroll_lines > u16::MAX as usize {
                u16::MAX
            } else {
                mouse_scroll_lines as u16
            };
            Some(
                AttachInputAction::Scroll {
                    source: AttachScrollSource::Wheel,
                    direction,
                    lines,
                    column: Some(column),
                    row: Some(row),
                    modifiers,
                },
            )
        },
        RawInputEvent::Key(key) => {
            if key.modifiers != KeyModifiers::none() {
                return None;
            }
            let direction = match key.code {
                KeyCode::PageUp => AttachScrollDirection::Up,
                KeyCode::PageDown => AttachScrollDirection::Down,
                _ => return None,
            };
            if key.kind == KeyEventKind::Release {
                return Some(AttachInputAction::Swallow);
            }
            let lines: u16 = if viewport_rows > 2 {
                viewport_rows - 1
            } else {
                1
            };
            Some(
                AttachInputAction::Scroll {
                    source: AttachScrollSource::PageKey { input: copy_bytes(data) },
                    direction,
                    lines,
                    column: None,
                    row: None,
                    modifiers: 0,
                },
            )
        },
        RawInputEvent::Other => None,
    }
}

/// What becomes of bytes for an attached terminal. `events` are what they stand for.
pub fn attach_input_action(
    data: Vec<u8>,
    events: &Vec<RawInputEvent>,
    viewport_rows: u16,
    mouse_scroll_lines: usize,
) -> (r: AttachInputAction)
    ensures
        r@ == attach_input(data@, events@, viewport_rows, mouse_scroll_lines),
{
    if data.len() == 0 {
        return AttachInputAction::Swallow;
    }
    match attach_scroll_action(&data, events, viewport_rows, mouse_scroll_lines) {
        Some(action) => action,
        None => AttachInputAction::Forward(data),
    }
}

/// A command of a controlling program, as it was read.
#[derive(Debug, PartialEq, Eq)]
pub enum TerminalControlCommand {
    Input { text: Option<String>, bytes: Option<String> },
    Resize { cols: u16, rows: u16, cell_width_px: u32, cell_height_px: u32 },
    Scroll {
        direction: AttachScrollDirection,
        lines: u16,
        /// A page key was pressed; otherwise the wheel was turned.
        page_key: bool,
        column: Option<u16>,
        row: Option<u16>,
        modifiers: u8,
    },
    Release,
}

/// What is sent to the server for a command.
#[derive(Debug, PartialEq, Eq)]
pub enum ControlMessage {
    Input { data: Vec<u8> },
    Resize { cols: u16, rows: u16, cell_width_px: u32, cell_height_px: u32 },
    Scroll {
        source: AttachScrollSource,
        direction: AttachScrollDirection,
        lines: u16,
        column: Option<u16>,
        row: Option<u16>,
        modifiers: u8,
    },
    Detach,
}

/// The bytes that a page key sends.
pub open spec fn page_key_bytes(direction: AttachScrollDirection) -> Seq<u8> {
    match direction {
        AttachScrollDirection::Up => seq![0x1b, 0x5b, 0x35, 0x7e],
        AttachScrollDirection::Down => seq![0x1b, 0x5b, 0x36, 0x7e],
    }
}

/// What input comes to: its text, or its bytes out of base64, but not both.
pub open spec fn input_bytes(text: Option<Seq<char>>, bytes: Option<Seq<char>>) -> Result<
    Seq<u8>,
    Seq<char>,
> {
    match (text, bytes) {
        (Some(_), Some(_)) => Err("terminal.input accepts text or bytes, not both"@),
        (Some(t), None) => Ok(encode_utf8(t)),
        (None, Some(b)) => match base64_bytes(b) {
            Ok(data) => Ok(data),
            Err(err) => Err("invalid terminal.input bytes: "@ + err),
        },
        (None, None) => Ok(Seq::empty()),
    }
}

/// Why a command is refused.
pub open spec fn refusal(command: TerminalControlCommand) -> Option<Seq<char>> {
    match command {
        TerminalControlCommand::Input { text, bytes } => match input_bytes(
            opt_text(text),
            opt_text(bytes),
        ) {
            Ok(_) => None,
            Err(words) => Some(words),
        },
        TerminalControlCommand::Resize { cols, rows, .. } => if cols == 0 || rows == 0 {
            Some("terminal.resize cols and rows must be greater than 0"@)
        } else {
            None
        },
        TerminalControlCommand::Scroll { lines, .. } => if lines == 0 {
            Some("terminal.scroll lines must be greater than 0"@)
        } else {
            None
        },
        TerminalControlCommand::Release => None,
    }
}

/// `message` is what a command asks for.
pub open spec fn carries_out(command: TerminalControlCommand, message: ControlMessage) -> bool {
    match command {
        TerminalControlCommand::Input { text, bytes } => message matches ControlMessage::Input {
            data,
        } && input_bytes(opt_text(text), opt_text(bytes)) == Ok::<Seq<u8>, Seq<char>>(data@),
        TerminalControlCommand::Resize { cols, rows, cell_width_px, cell_height_px } => message == (
        ControlMessage::Resize { cols, rows, cell_width_px, cell_height_px }),
        TerminalControlCommand::Scroll {
            direction,
            lines,
            page_key,
            column,
            row,
            modifiers,
        } => {
            &&& message matches ControlMessage::Scroll {
                source,
                direction: d,
                lines: l,
                column: c,
                row: w,
                modifiers: m,
            }
            &&& source_bytes(source) == (if page_key {
                Some(page_key_bytes(direction))
            } else {
                None
            })
            &&& (d, l, c, w, m) == (direction, lines, column, row, modifiers)
        },
        TerminalControlCommand::Release => message is Detach,
    }
}

/// What is sent for a command, or why the command is refused.
pub fn terminal_control_message(command: TerminalControlCommand) -> (r: Result<
    ControlMessage,
    String,
>)
    ensures
        match r {
            Ok(message) => refusal(command) is None && carries_out(command, message),
            Err(text) => refusal(command) == Some(text@),
        },
{
    match command {
        TerminalControlCommand::Input { text, bytes } => {
            let data = match (text, bytes) {
                (Some(_), Some(_)) => {
                    return Err("terminal.input accepts text or bytes, not both".to_owned());
                },
                (Some(text), None) => text.as_str().as_bytes_vec(),
                (None, Some(bytes)) => match decode_base64(bytes.as_str()) {
                    Ok(data) => data,
                    Err(err) => {
                        let mut message = "invalid terminal.input bytes: ".to_owned();
                        message.append(err.as_str());
                        return Err(message);
                    },
                },
                (None, None) => Vec::new(),
            };
            Ok(ControlMessage::Input { data })
        },
        TerminalControlCommand::Resize { cols, rows, cell_width_px, cell_height_px } => {
            if cols == 0 || rows == 0 {
                return Err("terminal.resize cols and rows must be greater than 0".to_owned());
            }
            Ok(ControlMessage::Resize { cols, rows, cell_width_px, cell_height_px })
        },
        TerminalControlCommand::Scroll { direction, lines, page_key, column, row, modifiers } => {
            if lines == 0 {
                return Err("terminal.scroll lines must be greater than 0".to_owned());
            }
            let source = if page_key {
                let input: Vec<u8> = match direction {
                    AttachScrollDirection::Up => vec![0x1b, 0x5b, 0x35, 0x7e],
                    AttachScrollDirection::Down => vec![0x1b, 0x5b, 0x36, 0x7e],
                };
                assert(input@ =~= page_key_bytes(direction));
                AttachScrollSource::PageKey { input }
            } else {
                AttachScrollSource::Wheel
            };
            Ok(ControlMessage::Scroll { source, direction, lines, column, row, modifiers })
        },
        TerminalControlCommand::Release => Ok(ControlMessage::Detach),
    }
}

/// What a controlling program's line comes to.
#[derive(Debug, PartialEq, Eq)]
pub enum ControlStep {
    /// A blank line.
    Skip,
    /// The message is sent; the last one ends the control.
    Send { message: ControlMessage, last: bool },
    /// The line is not a command; this is said of it.
    Complain(String),
}

/// What a controlling program's line comes to. `parsed` is the command that the line holds, or why it
/// holds none.
pub fn control_line(line: &str, parsed: Result<TerminalControlCommand, String>) -> (r: ControlStep)
    ensures
        if crate::text::trimmed(line@).len() == 0 {
            r is Skip
        } else {
            match parsed {
                Err(err) => r matches ControlStep::Complain(text) && text@
                    == "herdr: terminal session control input ignored: invalid json command: "@
                    + err@,
                Ok(command) => match refusal(command) {
                    Some(words) => r matches ControlStep::Complain(text) && text@
                        == "herdr: terminal session control input ignored: "@ + words,
                    None => r matches ControlStep::Send { message, last } && carries_out(
                        command,
                        message,
                    ) && last == (command is Release),
                },
            }
        },
{
    let bare = crate::text::trim(line);
    if bare.as_str().is_empty() {
        return ControlStep::Skip;
    }
    match parsed {
        Err(err) => {
            let mut text =
                "herdr: terminal session control input ignored: invalid json command: ".to_owned();
            text.append(err.as_str());
            ControlStep::Complain(text)
        },
        Ok(command) => match terminal_control_message(command) {
            Ok(message) => {
                let last = match &message {
                    ControlMessage::Detach => true,
                    _ => false,
                };
                ControlStep::Send { message, last }
            },
            Err(err) => {
                let mut text = "herdr: terminal session control input ignored: ".to_owned();
                text.append(err.as_str());
                ControlStep::Complain(text)
            },
        },
    }
}

/// What a watched terminal's server sent.
#[derive(Debug, PartialEq, Eq)]
pub enum SessionOutput {
    Terminal { seq: u64, width: u16, height: u16, full: bool, bytes: Vec<u8> },
    Shutdown { reason: Option<String> },
    /// A message that is not shown.
    Other,
    /// The server closed the connection.
    Eof,
    Failed { text: String },
}

/// What a watcher of a terminal prints, and whether it goes on.
#[derive(Debug, PartialEq, Eq)]
pub enum SessionLine {
    Frame { seq: u64, width: u16, height: u16, full: bool, encoded: String },
    /// The last line.
    Closed { reason: Option<String> },
    Nothing,
    End,
    Failed { text: String },
}

/// What a watcher of a terminal prints for a message: its frames with their bytes in base64.
pub fn terminal_session_line(output: SessionOutput) -> (r: SessionLine)
    ensures
        match output {
            SessionOutput::Terminal { seq, width, height, full, bytes } => {
                &&& r matches SessionLine::Frame { seq: s, width: w, height: h, full: f, encoded }
                &&& (s, w, h, f) == (seq, width, height, full)
                &&& encoded@ == base64_text(bytes@)
                &&& base64_bytes(encoded@) == Ok::<Seq<u8>, Seq<char>>(bytes@)
            },
            SessionOutput::Shutdown { reason } => r == (SessionLine::Closed { reason }),
            SessionOutput::Other => r is Nothing,
            SessionOutput::Eof => r is End,
            SessionOutput::Failed { text } => r == (SessionLine::Failed { text }),
        },
{
    match output {
        SessionOutput::Terminal { seq, width, height, full, bytes } => {
            let encoded = encode_base64(bytes.as_slice());
            SessionLine::Frame { seq, width, height, full, encoded }
        },
        SessionOutput::Shutdown { reason } => SessionLine::Closed { reason },
        SessionOutput::Other => SessionLine::Nothing,
        SessionOutput::Eof => SessionLine::End,
        SessionOutput::Failed { text } => SessionLine::Failed { text },
    }
}

/// How input is cut into pieces does not matter to the escapes.
pub proof fn escapes_span_pieces(pending: bool, first: Seq<u8>, second: Seq<u8>)
    requires
        !escaped(pending, first).detach,
    ensures
        ({
            let head = escaped(pending, first);
            escaped(pending, first + second) == led(head.output, escaped(head.pending, second))
        }),
    decreases first.len(),
{
    if first.len() == 0 {
        assert(first + second =~= second);
        assert(led(Seq::<u8>::empty(), escaped(pending, second)) =~= escaped(pending, second));
    } else {
        let all = first + second;
        assert(all[0] == first[0]);
        assert(all.skip(1) =~= first.skip(1) + second);
        let stays = !pending && first[0] == ATTACH_PREFIX;
        escapes_span_pieces(stays, first.skip(1), second);
        let head = escaped(stays, first.skip(1));
        let tail = escaped(head.pending, second);
        let lead = if pending {
            if first[0] == ATTACH_PREFIX {
                seq![ATTACH_PREFIX]
            } else {
                seq![ATTACH_PREFIX, first[0]]
            }
        } else {
            seq![first[0]]
        };
        assert(lead + (head.output + tail.output) =~= (lead + head.output) + tail.output);
    }
}

/// Input without the prefix passes as it is.
pub proof fn plain_input_passes(data: Seq<u8>)
    requires
        forall|i: int| 0 <= i < data.len() ==> #[trigger] data[i] != ATTACH_PREFIX,
    ensures
        escaped(false, data) == (Escaped { output: data, pending: false, detach: false }),
    decreases data.len(),
{
    if data.len() > 0 {
        assert(data[0] != ATTACH_PREFIX);
        plain_input_passes(data.skip(1));
        assert(seq![data[0]] + data.skip(1) =~= data);
    } else {
        assert(data =~= Seq::<u8>::empty());
    }
}

} // verus!
