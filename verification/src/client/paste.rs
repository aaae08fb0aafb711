//! Images that are pasted or dropped into the terminal of a client whose server is elsewhere.

use crate::client::attach::RawInputEvent;
use crate::client::terminal::{equal_ignoring_case, same_ignoring_case};
use crate::input::KeyEventKind;
use crate::text::{chars_of, find_last, last_before, read_utf8, string_of};
use crate::search::bytes_stand;
use vstd::prelude::*;
use vstd::slice::slice_subrange;
use vstd::utf8::{decode_utf8, valid_utf8};

verus! {

/// The bytes before a bracketed paste.
pub open spec fn paste_start() -> Seq<u8> {
    seq![0x1b, 0x5b, 0x32, 0x30, 0x30, 0x7e]
}

/// The bytes behind a bracketed paste.
pub open spec fn paste_end() -> Seq<u8> {
    seq![0x1b, 0x5b, 0x32, 0x30, 0x31, 0x7e]
}

/// `data` is a bracketed paste.
pub open spec fn is_paste(data: Seq<u8>) -> bool {
    &&& data.len() >= 12
    &&& data.take(6) == paste_start()
    &&& data.skip(data.len() - 6) == paste_end()
}

/// What a bracketed paste holds.
pub open spec fn pasted(data: Seq<u8>) -> Seq<u8> {
    data.subrange(6, data.len() - 6)
}

/// What a bracketed paste holds; none for anything else.
pub fn bracketed_paste_payload<'a>(data: &'a [u8]) -> (r: Option<&'a [u8]>)
    ensures
        match r {
            Some(payload) => is_paste(data@) && payload@ == pasted(data@),
            None => !is_paste(data@),
        },
{
    if data.len() < 12 {
        return None;
    }
    let start: Vec<u8> = vec![0x1b, 0x5b, 0x32, 0x30, 0x30, 0x7e];
    let end: Vec<u8> = vec![0x1b, 0x5b, 0x32, 0x30, 0x31, 0x7e];
    assert(start@ =~= paste_start());
    assert(end@ =~= paste_end());
    let last: usize = data.len() - 6;
    assert(data@.subrange(0, 6) =~= data@.take(6));
    assert(data@.subrange(last as int, data@.len() as int) =~= data@.skip(data@.len() - 6));
    if bytes_stand(data, 0, start.as_slice()) && bytes_stand(data, last, end.as_slice()) {
        Some(slice_subrange(data, 6, last))
    } else {
        None
    }
}

/// Whether input asks for the clipboard's image: an empty paste, which is what a terminal makes of an
/// image, or the key for it. `is_paste_key` says whether the first event is that key.
pub open spec fn bridges(
    data: Seq<u8>,
    is_remote_client: bool,
    events: Seq<RawInputEvent>,
    is_paste_key: bool,
) -> bool {
    if data == paste_start() + paste_end() {
        is_remote_client
    } else {
        &&& events.len() == 1
        &&& events[0] matches RawInputEvent::Key(key) && key.kind is Press
        &&& is_paste_key
    }
}

/// Whether input asks for the clipboard's image.
pub fn should_bridge_clipboard_image_paste(
    data: &[u8],
    is_remote_client: bool,
    events: &Vec<RawInputEvent>,
    is_paste_key: bool,
) -> (r: bool)
    ensures
        r == bridges(data@, is_remote_client, events@, is_paste_key),
{
    let empty = match bracketed_paste_payload(data) {
        Some(payload) => payload.len() == 0,
        None => false,
    };
    proof {
        let both = paste_start() + paste_end();
        if empty {
            assert(data@ =~= data@.take(6) + data@.skip(data@.len() - 6));
        }
        if data@ == both {
            assert(data@.take(6) =~= paste_start());
            assert(data@.skip(6) =~= paste_end());
        }
    }
    if empty {
        return is_remote_client;
    }
    if events.len() != 1 {
        return false;
    }
    match events[0] {
        RawInputEvent::Key(key) => key.kind == KeyEventKind::Press && is_paste_key,
        _ => false,
    }
}

/// A text without the line ends at its end.
pub open spec fn without_line_ends(text: Seq<char>) -> Seq<char>
    decreases text.len(),
{
    if text.len() > 0 && (text.last() == '\r' || text.last() == '\n') {
        without_line_ends(text.drop_last())
    } else {
        text
    }
}

pub open spec fn has_line_end(text: Seq<char>) -> bool {
    exists|i: int| 0 <= i < text.len() && (#[trigger] text[i] == '\r' || text[i] == '\n')
}

/// A text without the quotes around it, if they match.
pub open spec fn unquoted(text: Seq<char>) -> Seq<char> {
    if text.len() >= 2 && text[0] == text.last() && (text[0] == '\'' || text[0] == '"') {
        text.subrange(1, text.len() - 1)
    } else {
        text
    }
}

/// A text with what a backslash protects in place of both. One at the end stays.
pub open spec fn unescaped(text: Seq<char>) -> Seq<char>
    decreases text.len(),
{
    if text.len() == 0 {
        Seq::empty()
    } else if text[0] == '\\' && text.len() > 1 {
        seq![text[1]] + unescaped(text.skip(2))
    } else {
        seq![text[0]] + unescaped(text.skip(1))
    }
}

/// The last name of a path. Slashes at the end and single dots do not count; a path that
/// ends in two dots has none.
pub open spec fn file_name(path: Seq<char>) -> Option<Seq<char>>
    decreases path.len(),
{
    if path.len() == 0 {
        None
    } else if path.last() == '/' {
        file_name(path.drop_last())
    } else {
        let start = match last_before(path, path.len() as int, '/') {
            Some(slash) if 0 <= slash < path.len() => slash + 1,
            _ => 0,
        };
        let name = path.skip(start);
        if start < path.len() && name == seq!['.'] {
            file_name(path.take(start))
        } else if name == seq!['.', '.'] {
            None
        } else {
            Some(name)
        }
    }
}

/// The extension of a name: what follows its last dot, unless the name begins with that dot.
pub open spec fn extension(name: Seq<char>) -> Option<Seq<char>> {
    match last_before(name, name.len() as int, '.') {
        Some(dot) if dot > 0 => Some(name.skip(dot + 1)),
        _ => None,
    }
}

/// The kinds of image that are known by their extension.
pub open spec fn image_kind(extension: Seq<char>) -> Option<Seq<char>> {
    if same_ignoring_case(extension, "png"@) {
        Some("png"@)
    } else if same_ignoring_case(extension, "jpg"@) || same_ignoring_case(extension, "jpeg"@) {
        Some("jpg"@)
    } else if same_ignoring_case(extension, "gif"@) {
        Some("gif"@)
    } else if same_ignoring_case(extension, "webp"@) {
        Some("webp"@)
    } else if same_ignoring_case(extension, "bmp"@) {
        Some("bmp"@)
    } else {
        None
    }
}

/// The kind of image that an extension stands for.
pub fn recognized_image_extension(extension: &str) -> (r: Option<&'static str>)
    ensures
        match r {
            Some(kind) => image_kind(extension@) == Some(kind@),
            None => image_kind(extension@) is None,
        },
{
    if equal_ignoring_case(extension, "png") {
        Some("png")
    } else if equal_ignoring_case(extension, "jpg") || equal_ignoring_case(extension, "jpeg") {
        Some("jpg")
    } else if equal_ignoring_case(extension, "gif") {
        Some("gif")
    } else if equal_ignoring_case(extension, "webp") {
        Some("webp")
    } else if equal_ignoring_case(extension, "bmp") {
        Some("bmp")
    } else {
        None
    }
}

/// A text with what a backslash protects in place of both.
pub fn unescape_terminal_drop_path(text: &[char]) -> (r: Vec<char>)
    ensures
        r@ == unescaped(text@),
{
    let mut out: Vec<char> = Vec::new();
    let mut i: usize = 0;
    let total: usize = text.len();
    assert(text@.skip(0) =~= text@);
    assert(out@ + unescaped(text@) =~= unescaped(text@));
    while i < total
        invariant
            i <= total == text@.len(),
            out@ + unescaped(text@.skip(i as int)) == unescaped(text@),
        decreases total - i,
    {
        let ghost rest = text@.skip(i as int);
        let ghost before = out@;
        if text[i] == '\\' && i + 1 < total {
            let c = text[i + 1];
            out.push(c);
            proof {
                assert(rest.skip(2) =~= text@.skip(i + 2));
                assert(rest[1] == c);
                assert(before.push(c) + unescaped(rest.skip(2)) =~= before + (seq![c] + unescaped(
                    rest.skip(2),
                )));
            }
            i += 2;
        } else {
            let c = text[i];
            out.push(c);
            proof {
                assert(rest.skip(1) =~= text@.skip(i + 1));
                assert(rest[0] == c);
                assert(before.push(c) + unescaped(rest.skip(1)) =~= before + (seq![c] + unescaped(
                    rest.skip(1),
                )));
            }
            i += 1;
        }
    }
    assert(text@.skip(i as int) =~= Seq::<char>::empty());
    assert(out@ + Seq::<char>::empty() =~= out@);
    out
}

/// The text without the quotes around it, as a range.
fn quote_range(text: &[char]) -> (r: (usize, usize))
    ensures
        r.0 <= r.1 <= text@.len(),
        text@.subrange(r.0 as int, r.1 as int) == unquoted(text@),
{
    let n: usize = text.len();
    if n >= 2 {
        let first = text[0];
        let last = text[n - 1];
        if first == last && (first == '\'' || first == '"') {
            return (1, n - 1);
        }
    }
    assert(text@.subrange(0, n as int) =~= text@);
    (0, n)
}

fn name_range(path: &[char], end: usize) -> (r: Option<(usize, usize)>)
    requires
        end <= path@.len(),
    ensures
        match r {
            Some((from, to)) => from <= to <= path@.len() && file_name(path@.take(end as int)) == Some(
                path@.subrange(from as int, to as int),
            ),
            None => file_name(path@.take(end as int)) is None,
        },
    decreases end,
{
    let ghost part = path@.take(end as int);
    if end == 0 {
        return None;
    }
    if path[end - 1] == '/' {
        assert(part.drop_last() =~= path@.take(end - 1));
        return name_range(path, end - 1);
    }
    let slash = find_last(path, end, '/');
    proof {
        lemma_prefix_last(path@, end as int, end as int, '/');
    }
    let start: usize = match slash {
        Some(at) => at + 1,
        None => 0,
    };
    assert(part.skip(start as int) =~= path@.subrange(start as int, end as int));
    if end - start == 1 && path[start] == '.' {
        assert(part.skip(start as int) =~= seq!['.']);
        assert(part.take(start as int) =~= path@.take(start as int));
        return name_range(path, start);
    }
    proof {
        if part.skip(start as int) == seq!['.'] {
            assert(part.skip(start as int).len() == 1);
            assert(part.skip(start as int)[0] == '.');
        }
    }
    if end - start == 2 && path[start] == '.' && path[start + 1] == '.' {
        assert(part.skip(start as int) =~= seq!['.', '.']);
        return None;
    }
    proof {
        if part.skip(start as int) == seq!['.', '.'] {
            assert(part.skip(start as int).len() == 2);
            assert(part.skip(start as int)[0] == '.');
            assert(part.skip(start as int)[1] == '.');
        }
    }
    Some((start, end))
}

/// A character's last place before `end` is the same in every longer text.
proof fn lemma_prefix_last(path: Seq<char>, end: int, upto: int, c: char)
    requires
        0 <= upto <= end <= path.len(),
    ensures
        last_before(path.take(end), upto, c) == last_before(path, upto, c),
        last_before(path, upto, c) matches Some(at) ==> 0 <= at < upto,
    decreases upto,
{
    if upto > 0 {
        assert(path.take(end)[upto - 1] == path[upto - 1]);
        if path[upto - 1] != c {
            lemma_prefix_last(path, end, upto - 1, c);
        }
    }
}

/// The image file that some input names, and its kind.
pub open spec fn dropped_image(data: Seq<u8>, is_remote_client: bool) -> Option<(
    Seq<char>,
    Seq<char>,
)> {
    let bytes = if is_paste(data) {
        pasted(data)
    } else {
        data
    };
    let line = without_line_ends(decode_utf8(bytes));
    let path = unescaped(unquoted(line));
    if !is_remote_client || !valid_utf8(bytes) || line.len() == 0 || has_line_end(line) {
        None
    } else if path.len() == 0 || path[0] != '/' {
        None
    } else {
        match file_name(path) {
            Some(name) => match extension(name) {
                Some(ext) => match image_kind(ext) {
                    Some(kind) => Some((path, kind)),
                    None => None,
                },
                None => None,
            },
            None => None,
        }
    }
}

/// The image file that some input names, and its kind: one line, perhaps pasted, quoted or with
/// backslashes, that is the absolute path of a file with the extension of an image.
pub fn image_path_from_terminal_drop(data: &[u8], is_remote_client: bool) -> (r: Option<(
    String,
    &'static str,
)>)
    ensures
        match r {
            Some((path, kind)) => dropped_image(data@, is_remote_client) == Some((path@, kind@)),
            None => dropped_image(data@, is_remote_client) is None,
        },
{
    if !is_remote_client {
        return None;
    }
    let bytes = match bracketed_paste_payload(data) {
        Some(payload) => payload,
        None => data,
    };
    let text = match read_utf8(bytes) {
        Some(text) => text,
        None => return None,
    };
    let chars = chars_of(text.as_str());
    let mut end: usize = chars.len();
    assert(chars@.take(end as int) =~= chars@);
    while end > 0 && (chars[end - 1] == '\r' || chars[end - 1] == '\n')
        invariant
            end <= chars@.len(),
            without_line_ends(chars@) == without_line_ends(chars@.take(end as int)),
        decreases end,
    {
        assert(chars@.take(end as int).last() == chars@[end - 1]);
        assert(chars@.take(end as int).drop_last() =~= chars@.take(end - 1));
        end -= 1;
    }
    let ghost line = chars@.take(end as int);
    proof {
        if end > 0 {
            assert(line.last() == chars@[end - 1]);
        }
        assert(without_line_ends(chars@) == line);
    }
    if end == 0 {
        return None;
    }
    let mut i: usize = 0;
    while i < end
        invariant
            i <= end <= chars@.len(),
            line == chars@.take(end as int),
            forall|k: int| 0 <= k < i ==> line[k] != '\r' && line[k] != '\n',
            is_remote_client,
            valid_utf8(bytes@),
            bytes@ == (if is_paste(data@) {
                pasted(data@)
            } else {
                data@
            }),
            line == without_line_ends(decode_utf8(bytes@)),
        decreases end - i,
    {
        assert(line[i as int] == chars@[i as int]);
        if chars[i] == '\r' || chars[i] == '\n' {
            assert(has_line_end(line));
            return None;
        }
        i += 1;
    }
    assert(!has_line_end(line));
    let line_chars = slice_subrange(chars.as_slice(), 0, end);
    assert(line_chars@ =~= line);
    let (from, to) = quote_range(line_chars);
    let path = unescape_terminal_drop_path(slice_subrange(line_chars, from, to));
    if path.len() == 0 || path[0] != '/' {
        return None;
    }
    let all = path.as_slice();
    let total: usize = path.len();
    assert(path@.take(total as int) =~= path@);
    let (start, stop) = match name_range(all, total) {
        Some(range) => range,
        None => return None,
    };
    let name = slice_subrange(all, start, stop);
    let ghost file = name@;
    let dot = match find_last(name, name.len(), '.') {
        Some(dot) => dot,
        None => return None,
    };
    if dot == 0 {
        return None;
    }
    proof {
        lemma_prefix_last(file, file.len() as int, file.len() as int, '.');
    }
    let ext = string_of(name, dot + 1, name.len());
    assert(ext@ =~= file.skip(dot + 1));
    match recognized_image_extension(ext.as_str()) {
        Some(kind) => {
            let path_text = string_of(all, 0, total);
            assert(path_text@ =~= path@);
            Some((path_text, kind))
        },
        None => None,
    }
}

/// What reading a file up to a limit came to.
#[derive(Debug, PartialEq, Eq)]
pub enum LimitedRead {
    Complete(Vec<u8>),
    Empty,
    Oversized,
    Failed,
}

/// The bytes of a dropped file: of a regular file that was read in full and is not empty.
pub fn dropped_file_bytes(is_file: bool, read: LimitedRead) -> (r: Option<Vec<u8>>)
    ensures
        r == (match read {
            LimitedRead::Complete(bytes) if is_file => Some(bytes),
            _ => None,
        }),
{
    if !is_file {
        return None;
    }
    match read {
        LimitedRead::Complete(bytes) => Some(bytes),
        _ => None,
    }
}

/// What follows when the clipboard's image was asked for.
#[derive(Debug, Clone, Copy, PartialEq, Eq, Structural)]
pub enum ClipboardBridge {
    /// The image is sent in place of the input.
    Send,
    /// The image is too large; nothing is sent.
    TooLarge,
    /// There is no image; the input is taken as it is.
    NoImage,
}

/// What follows when the clipboard's image was asked for. `len` is the size of the image, if there
/// is one.
pub fn bridge_clipboard_image(len: Option<usize>, max: usize) -> (r: ClipboardBridge)
    ensures
        r == (match len {
            Some(n) if n > max => ClipboardBridge::TooLarge,
            Some(_) => ClipboardBridge::Send,
            None => ClipboardBridge::NoImage,
        }),
{
    match len {
        Some(n) => if n > max {
            ClipboardBridge::TooLarge
        } else {
            ClipboardBridge::Send
        },
        None => ClipboardBridge::NoImage,
    }
}

/// A text without backslashes stays as it is.
pub proof fn plain_paths_stay(text: Seq<char>)
    requires
        forall|i: int| 0 <= i < text.len() ==> #[trigger] text[i] != '\\',
    ensures
        unescaped(text) == text,
    decreases text.len(),
{
    if text.len() > 0 {
        assert(text[0] != '\\');
        plain_paths_stay(text.skip(1));
        assert(seq![text[0]] + text.skip(1) =~= text);
    } else {
        assert(text =~= Seq::<char>::empty());
    }
}

/// The clipboard's image is asked for by an empty paste from afar, and by the key for it when that is
/// all that was pressed; a paste of some text never asks for it.
pub proof fn clipboard_images_are_asked_for(
    data: Seq<u8>,
    is_remote_client: bool,
    events: Seq<RawInputEvent>,
    is_paste_key: bool,
)
    ensures
        ({
            let empty_paste = seq![
                0x1bu8, 0x5b, 0x32, 0x30, 0x30, 0x7e, 0x1b, 0x5b, 0x32, 0x30, 0x31, 0x7e,
            ];
            let asked = bridges(data, is_remote_client, events, is_paste_key);
            &&& data == empty_paste ==> asked == is_remote_client
            &&& data != empty_paste && !is_paste_key ==> !asked
            &&& data != empty_paste && events.len() != 1 ==> !asked
            &&& data != empty_paste && events.len() == 1 && !(events[0] is Key) ==> !asked
            &&& data != empty_paste && events.len() == 1 && events[0] is Key ==> asked == (
            is_paste_key && events[0]->Key_0.kind is Press)
        }),
{
    let empty_paste = seq![
        0x1bu8, 0x5b, 0x32, 0x30, 0x30, 0x7e, 0x1b, 0x5b, 0x32, 0x30, 0x31, 0x7e,
    ];
    assert(paste_start() + paste_end() =~= empty_paste);
}

} // verus!
