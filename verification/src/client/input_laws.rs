//! What becomes of what is typed, pasted and dropped into the client's terminal.

use crate::client::attach::{
    attach_input, carries_out, escaped, refusal, AttachInput, AttachScrollDirection,
    AttachScrollSource, ControlMessage, Escaped, MouseKind, RawInputEvent, TerminalControlCommand,
};
use crate::client::encoding::base64_bytes;
use crate::client::paste::{
    dropped_image, extension, file_name, has_line_end, image_kind, is_paste, paste_end, paste_start,
    plain_paths_stay, unquoted, without_line_ends,
};
use crate::client::terminal::{lower, same_ignoring_case};
use crate::client::typed::{typed_step, Step};
use crate::input::TerminalKey;
use crate::text::last_before;
use vstd::prelude::*;
use vstd::utf8::{decode_utf8, encode_utf8, valid_utf8};

verus! {

/// The prefix of an attached terminal is `C-b`. With `q` behind it the client detaches; twice it is
/// sent once; before any other byte both are sent; alone it waits for what comes.
pub proof fn the_prefix_escapes(b: u8, rest: Seq<u8>)
    ensures
        escaped(false, seq![2u8, 0x71u8] + rest).detach,
        escaped(true, seq![0x71u8] + rest).detach,
        escaped(false, seq![2u8]) == (Escaped {
            output: Seq::empty(),
            pending: true,
            detach: false,
        }),
        escaped(true, seq![2u8]) == (Escaped { output: seq![2u8], pending: false, detach: false }),
        b != 2 && b != 0x71 ==> escaped(true, seq![b]) == (Escaped {
            output: seq![2u8, b],
            pending: false,
            detach: false,
        }),
        b != 2 ==> escaped(false, seq![b]) == (Escaped {
            output: seq![b],
            pending: false,
            detach: false,
        }),
        escaped(true, Seq::empty()) == (Escaped {
            output: Seq::empty(),
            pending: true,
            detach: false,
        }),
{
    reveal_with_fuel(escaped, 3);
    let none = Seq::<u8>::empty();
    let q = seq![2u8, 0x71u8] + rest;
    assert(q[0] == 2 && q.skip(1)[0] == 0x71);
    assert((seq![0x71u8] + rest)[0] == 0x71);
    assert(seq![2u8].skip(1) =~= none);
    assert(seq![b].skip(1) =~= none);
    assert(seq![2u8] + none =~= seq![2u8]);
    assert(seq![2u8, b] + none =~= seq![2u8, b]);
    assert(seq![b] + none =~= seq![b]);
}

/// No modifier is held.
pub open spec fn bare(key: TerminalKey) -> bool {
    let m = key.modifiers;
    !m.shift && !m.control && !m.alt && !m.super_key && !m.hyper && !m.meta
}

/// In an attached terminal the wheel scrolls by the lines of a notch, at least one, and says where the
/// mouse was; the page keys scroll by a page, a row less than there are, and hand their bytes on; other
/// mouse input and the release of a page key go nowhere. All else goes to the terminal as it is.
pub proof fn attached_terminals_scroll(
    data: Seq<u8>,
    event: RawInputEvent,
    events: Seq<RawInputEvent>,
    rows: u16,
    lines: usize,
)
    requires
        data.len() > 0,
    ensures
        ({
            let one = attach_input(data, seq![event], rows, lines);
            let notch: int = if lines == 0 {
                1
            } else if lines > 65535 {
                65535
            } else {
                lines as int
            };
            let page: int = if rows > 2 {
                rows - 1
            } else {
                1
            };
            &&& event matches RawInputEvent::Mouse { kind, column, row, modifiers } ==> one == (
            match kind {
                MouseKind::ScrollUp => AttachInput::Scroll {
                    input: None,
                    direction: AttachScrollDirection::Up,
                    lines: notch,
                    column: Some(column),
                    row: Some(row),
                    modifiers,
                },
                MouseKind::ScrollDown => AttachInput::Scroll {
                    input: None,
                    direction: AttachScrollDirection::Down,
                    lines: notch,
                    column: Some(column),
                    row: Some(row),
                    modifiers,
                },
                MouseKind::Other => AttachInput::Swallow,
            })
            &&& event matches RawInputEvent::Key(key) ==> {
                let paging = bare(key) && (key.code is PageUp || key.code is PageDown);
                &&& !paging ==> one == AttachInput::Forward(data)
                &&& paging && key.kind is Release ==> one is Swallow
                &&& paging && !(key.kind is Release) ==> one == (AttachInput::Scroll {
                    input: Some(data),
                    direction: if key.code is PageUp {
                        AttachScrollDirection::Up
                    } else {
                        AttachScrollDirection::Down
                    },
                    lines: page,
                    column: None,
                    row: None,
                    modifiers: 0,
                })
            }
            &&& event is Other ==> one == AttachInput::Forward(data)
            &&& events.len() != 1 ==> attach_input(data, events, rows, lines)
                == AttachInput::Forward(data)
            &&& attach_input(Seq::empty(), events, rows, lines) is Swallow
        }),
{
}

/// Input goes to the server as it is, unless something below says otherwise: in an attached terminal it
/// scrolls; an empty paste of a remote client, or the key for it, asks for the clipboard's image; a
/// dropped image file of a remote client is read.
pub proof fn input_is_sent_as_typed(
    attached: bool,
    data: Seq<u8>,
    events: Seq<RawInputEvent>,
    rows: u16,
    lines: usize,
    remote: bool,
    paste_key: bool,
)
    ensures
        ({
            let step = typed_step(attached, data, events, rows, lines, remote, paste_key);
            let kept = attach_input(data, events, rows, lines);
            let empty_paste = seq![
                0x1bu8,
                0x5b,
                0x32,
                0x30,
                0x30,
                0x7e,
                0x1b,
                0x5b,
                0x32,
                0x30,
                0x31,
                0x7e,
            ];
            let pressed = paste_key && events.len() == 1 && (events[0] matches RawInputEvent::Key(
                key,
            ) && key.kind is Press);
            let through = !attached || kept is Forward;
            &&& attached && kept is Swallow ==> step is Nothing
            &&& attached && kept is Scroll ==> step == Step::Scroll(kept)
            &&& through && data == empty_paste && remote ==> step == (Step::ReadClipboard { data })
            &&& through && data == empty_paste && !remote ==> step == (Step::Input { data })
            &&& through && data != empty_paste && pressed ==> step == (Step::ReadClipboard { data })
            &&& through && data != empty_paste && !pressed && !remote ==> step == (Step::Input {
                data,
            })
            &&& through && data != empty_paste && !pressed && remote ==> (match dropped_image(
                data,
                true,
            ) {
                Some((path, kind)) => step == (Step::ReadFile { path, extension: kind, data }),
                None => step == (Step::Input { data }),
            })
        }),
{
    let empty_paste = seq![
        0x1bu8,
        0x5b,
        0x32,
        0x30,
        0x30,
        0x7e,
        0x1b,
        0x5b,
        0x32,
        0x30,
        0x31,
        0x7e,
    ];
    assert(paste_start() + paste_end() =~= empty_paste);
}

/// A character that a path on a command line has as it is.
pub open spec fn plain(c: char) -> bool {
    c != '\\' && c != '\'' && c != '"' && c != '\r' && c != '\n'
}

proof fn lemma_last_before(s: Seq<char>, n: int, c: char, k: int)
    requires
        0 <= k < n <= s.len(),
        s[k] == c,
        forall|j: int| k < j < n ==> #[trigger] s[j] != c,
    ensures
        last_before(s, n, c) == Some(k),
    decreases n,
{
    if n - 1 > k {
        assert(s[n - 1] != c);
        lemma_last_before(s, n - 1, c, k);
    }
}

/// An absolute path without quotes, escapes or line ends that is dropped on a remote client, and whose
/// last name ends in the extension of an image, names that image.
pub proof fn dropped_images_are_recognised(data: Seq<u8>, path: Seq<char>, slash: int, dot: int)
    requires
        valid_utf8(data),
        decode_utf8(data) == path,
        !is_paste(data),
        forall|i: int| 0 <= i < path.len() ==> plain(#[trigger] path[i]),
        0 <= slash,
        slash + 1 < dot < path.len() - 1,
        path[0] == '/',
        path[slash] == '/',
        path[dot] == '.',
        forall|i: int| slash < i < path.len() ==> #[trigger] path[i] != '/',
        forall|i: int| dot < i < path.len() ==> #[trigger] path[i] != '.',
    ensures
        ({
            let ext = path.skip(dot + 1);
            &&& image_kind(ext) matches Some(kind) ==> dropped_image(data, true) == Some((path, kind))
            &&& image_kind(ext) is None ==> dropped_image(data, true) is None
            &&& dropped_image(data, false) is None
        }),
{
    let line = without_line_ends(path);
    assert(plain(path[path.len() - 1]));
    assert(line == path);
    assert(plain(path[0]));
    assert(unquoted(path) == path);
    assert forall|i: int| 0 <= i < path.len() implies #[trigger] path[i] != '\\' by {
        assert(plain(path[i]));
    }
    plain_paths_stay(path);
    assert(!has_line_end(path)) by {
        assert forall|i: int| 0 <= i < path.len() implies #[trigger] path[i] != '\r' && path[i]
            != '\n' by {
            assert(plain(path[i]));
        }
    }
    lemma_last_before(path, path.len() as int, '/', slash);
    let name = path.skip(slash + 1);
    assert(path.last() == path[path.len() - 1]);
    assert(name.len() >= 3);
    assert(name != seq!['.']) by {
        assert(seq!['.'].len() == 1);
    }
    assert(name != seq!['.', '.']) by {
        assert(seq!['.', '.'].len() == 2);
    }
    assert(file_name(path) == Some(name));
    let at = dot - slash - 1;
    assert(name[at] == '.');
    assert forall|j: int| at < j < name.len() implies #[trigger] name[j] != '.' by {
        assert(name[j] == path[slash + 1 + j]);
    }
    lemma_last_before(name, name.len() as int, '.', at);
    assert(name.skip(at + 1) =~= path.skip(dot + 1));
    assert(extension(name) == Some(path.skip(dot + 1)));
}

/// The images are those whose extension is a known one, in capitals or not; both spellings of JPEG are
/// one kind.
pub proof fn image_kinds_are_known()
    ensures
        image_kind("png"@) == Some("png"@),
        image_kind("PNG"@) == Some("png"@),
        image_kind("jpg"@) == Some("jpg"@),
        image_kind("jpeg"@) == Some("jpg"@),
        image_kind("gif"@) == Some("gif"@),
        image_kind("webp"@) == Some("webp"@),
        image_kind("bmp"@) == Some("bmp"@),
        image_kind("txt"@) is None,
{
    reveal_strlit("png");
    reveal_strlit("PNG");
    reveal_strlit("jpg");
    reveal_strlit("jpeg");
    reveal_strlit("gif");
    reveal_strlit("webp");
    reveal_strlit("bmp");
    reveal_strlit("txt");
    assert(same_ignoring_case("PNG"@, "png"@));
    assert(lower("jpg"@[0]) != lower("png"@[0]));
    assert(lower("gif"@[0]) != lower("png"@[0]));
    assert(lower("gif"@[0]) != lower("jpg"@[0]));
    assert(lower("bmp"@[0]) != lower("png"@[0]));
    assert(lower("bmp"@[0]) != lower("jpg"@[0]));
    assert(lower("bmp"@[0]) != lower("gif"@[0]));
    assert(lower("txt"@[0]) != lower("png"@[0]));
    assert(lower("txt"@[0]) != lower("jpg"@[0]));
    assert(lower("txt"@[0]) != lower("gif"@[0]));
    assert(lower("txt"@[0]) != lower("bmp"@[0]));
    assert(lower("webp"@[0]) != lower("jpeg"@[0]));
}

/// What a controlling program asks for is what is sent: text as it is, bytes out of their encoding, a
/// size or a scroll as it says. Refused are input given both ways or in bytes that do not decode, a
/// size without columns or rows, and a scroll by nothing. Releasing the terminal detaches.
pub proof fn control_commands_are_carried_out(
    command: TerminalControlCommand,
    message: ControlMessage,
    data: Vec<u8>,
)
    ensures
        command matches TerminalControlCommand::Input { text, bytes } ==> {
            let sends = carries_out(command, ControlMessage::Input { data });
            &&& text is Some && bytes is Some ==> refusal(command) is Some
            &&& text is Some && bytes is None ==> refusal(command) is None && sends == (data@
                == encode_utf8(text->0@))
            &&& text is None && bytes is Some ==> (match base64_bytes(bytes->0@) {
                Ok(decoded) => refusal(command) is None && sends == (data@ == decoded),
                Err(_) => refusal(command) is Some,
            })
            &&& text is None && bytes is None ==> refusal(command) is None && sends == (data@.len()
                == 0)
        },
        command matches TerminalControlCommand::Resize { cols, rows, cell_width_px, cell_height_px }
            ==> (refusal(command) is Some) == (cols == 0 || rows == 0) && carries_out(
            command,
            ControlMessage::Resize { cols, rows, cell_width_px, cell_height_px },
        ),
        command matches TerminalControlCommand::Scroll {
            direction,
            lines,
            page_key,
            column,
            row,
            modifiers,
        } ==> (refusal(command) is Some) == (lines == 0) && (carries_out(command, message) ==> (
        message matches ControlMessage::Scroll {
            source,
            direction: d,
            lines: l,
            column: c,
            row: r,
            modifiers: m,
        } && d == direction && l == lines && c == column && r == row && m == modifiers && (
        page_key ==> (source matches AttachScrollSource::PageKey { input } && input@ == (
        if direction is Up {
            seq![0x1bu8, 0x5b, 0x35, 0x7e]
        } else {
            seq![0x1bu8, 0x5b, 0x36, 0x7e]
        }))) && (!page_key ==> source is Wheel))),
        command is Release ==> refusal(command) is None && carries_out(command, message) == (
        message is Detach),
{
    if data@.len() == 0 {
        assert(data@ =~= Seq::<u8>::empty());
    }
}

} // verus!
