//! Previews of images: where one is shown in the terminal, how it is sent there, and the name under
//! which it is staged for another viewer.

use crate::client::encoding::{base64_text, encode_base64};
use crate::client::paste::file_name;
use crate::text::{chars_of, decimal, last_before, opt_text, push_decimal};
use crate::search::bytes_stand;
use vstd::prelude::*;
use vstd::slice::slice_subrange;
use vstd::utf8::encode_utf8;

verus! {

/// The bytes of an image that one command carries.
pub const KITTY_CHUNK_BYTES: usize = 3072;

/// The age from which a staged image is removed: a day, in nanoseconds.
pub const CACHE_MAX_AGE_NANOS: u128 = 86400000000000;

/// Where a preview is shown: its box, and the image in the box, in cells.
#[derive(Debug, Clone, Copy, PartialEq, Eq, Structural)]
pub struct InlinePreviewLayout {
    pub x: u16,
    pub y: u16,
    pub width: u16,
    pub height: u16,
    pub image_x: u16,
    pub image_y: u16,
    pub image_cols: u16,
    pub image_rows: u16,
}

/// A number out of four bytes, the highest first.
pub open spec fn big_endian(data: Seq<u8>, at: int) -> int {
    data[at] * 16777216 + data[at + 1] * 65536 + data[at + 2] * 256 + data[at + 3]
}

/// The eight bytes that a PNG image begins with.
pub open spec fn png_signature() -> Seq<u8> {
    seq![0x89, 0x50, 0x4e, 0x47, 0x0d, 0x0a, 0x1a, 0x0a]
}

/// The name of a PNG image's first part.
pub open spec fn header_name() -> Seq<u8> {
    seq![0x49, 0x48, 0x44, 0x52]
}

/// The width and height of a PNG image, which its header holds.
pub open spec fn dimensions(data: Seq<u8>) -> Option<(int, int)> {
    if data.len() < 24 || data.take(8) != png_signature() || data.subrange(12, 16) != header_name() {
        None
    } else if big_endian(data, 16) == 0 || big_endian(data, 20) == 0 {
        None
    } else {
        Some((big_endian(data, 16), big_endian(data, 20)))
    }
}

fn read_number(data: &[u8], at: usize) -> (r: u32)
    requires
        at + 4 <= data@.len(),
        data@.len() <= usize::MAX,
    ensures
        r == big_endian(data@, at as int),
{
    data[at] as u32 * 16777216 + data[at + 1] as u32 * 65536 + data[at + 2] as u32 * 256 + data[at
        + 3] as u32
}

/// The width and height of a PNG image.
pub fn png_dimensions(data: &[u8]) -> (r: Option<(u32, u32)>)
    ensures
        match r {
            Some((w, h)) => dimensions(data@) == Some((w as int, h as int)),
            None => dimensions(data@) is None,
        },
{
    let total: usize = data.len();
    if total < 24 {
        return None;
    }
    let signature: Vec<u8> = vec![0x89, 0x50, 0x4e, 0x47, 0x0d, 0x0a, 0x1a, 0x0a];
    let name: Vec<u8> = vec![0x49, 0x48, 0x44, 0x52];
    assert(signature@ =~= png_signature());
    assert(name@ =~= header_name());
    assert(data@.subrange(0, 8) =~= data@.take(8));
    if !bytes_stand(data, 0, signature.as_slice()) || !bytes_stand(data, 12, name.as_slice()) {
        return None;
    }
    let width = read_number(data, 16);
    let height = read_number(data, 20);
    if width > 0 && height > 0 {
        Some((width, height))
    } else {
        None
    }
}

/// The room that a preview has: the image's size in pixels, and the most cells and pixels that it
/// may take.
#[derive(Debug, Clone, Copy, PartialEq, Eq, Structural)]
pub struct PreviewBounds {
    pub image_width: u32,
    pub image_height: u32,
    pub max_cols: u16,
    pub max_rows: u16,
    pub cell_width_px: u32,
    pub cell_height_px: u32,
    pub max_width_px: u64,
    pub max_height_px: u64,
}

pub open spec fn at_least_one(n: u32) -> u32 {
    if n == 0 {
        1
    } else {
        n
    }
}

/// The room that a preview has: all of the terminal but three cells on every side.
pub open spec fn room(
    png: Seq<u8>,
    terminal_cols: u16,
    terminal_rows: u16,
    cell_width_px: u32,
    cell_height_px: u32,
) -> Option<PreviewBounds> {
    match dimensions(png) {
        Some((width, height)) if terminal_cols >= 8 && terminal_rows >= 6 => {
            let cell_width = at_least_one(cell_width_px);
            let cell_height = at_least_one(cell_height_px);
            let cols = (terminal_cols - 6) as u16;
            let rows = if terminal_rows > 6 {
                (terminal_rows - 6) as u16
            } else {
                1u16
            };
            Some(
                PreviewBounds {
                    image_width: width as u32,
                    image_height: height as u32,
                    max_cols: cols,
                    max_rows: rows,
                    cell_width_px: cell_width,
                    cell_height_px: cell_height,
                    max_width_px: (cols * cell_width) as u64,
                    max_height_px: (rows * cell_height) as u64,
                },
            )
        },
        _ => None,
    }
}

/// The room that a preview has; none where the image cannot be read or the terminal is too small.
pub fn preview_bounds(
    png: &[u8],
    terminal_cols: u16,
    terminal_rows: u16,
    cell_width_px: u32,
    cell_height_px: u32,
) -> (r: Option<PreviewBounds>)
    ensures
        r == room(png@, terminal_cols, terminal_rows, cell_width_px, cell_height_px),
{
    let (image_width, image_height) = match png_dimensions(png) {
        Some(size) => size,
        None => return None,
    };
    if terminal_cols < 8 || terminal_rows < 6 {
        return None;
    }
    let max_cols: u16 = terminal_cols - 6;
    let max_rows: u16 = if terminal_rows > 6 {
        terminal_rows - 6
    } else {
        1
    };
    let cell_width_px: u32 = if cell_width_px == 0 {
        1
    } else {
        cell_width_px
    };
    let cell_height_px: u32 = if cell_height_px == 0 {
        1
    } else {
        cell_height_px
    };
    proof {
        lemma_product_fits(max_cols, cell_width_px);
        lemma_product_fits(max_rows, cell_height_px);
    }
    let max_width_px: u64 = max_cols as u64 * cell_width_px as u64;
    let max_height_px: u64 = max_rows as u64 * cell_height_px as u64;
    Some(
        PreviewBounds {
            image_width,
            image_height,
            max_cols,
            max_rows,
            cell_width_px,
            cell_height_px,
            max_width_px,
            max_height_px,
        },
    )
}

proof fn lemma_product_fits(a: u16, b: u32)
    ensures
        0 <= a * b <= 65535 * 4294967295,
{
    assert(0 <= a * b <= 65535 * 4294967295) by (nonlinear_arith)
        requires
            0 <= a <= 65535,
            0 <= b <= 4294967295,
    ;
}

/// The cells that some pixels take, and no more than there are.
pub open spec fn cells_for(pixels: u64, cell: u32, most: u16) -> int {
    let full = pixels as int / cell as int + (if pixels as int % cell as int == 0 {
        0int
    } else {
        1
    });
    if full < most {
        full
    } else {
        most as int
    }
}

fn cells_for_pixels(pixels: u64, cell: u32, most: u16) -> (r: u16)
    requires
        cell > 0,
    ensures
        r == cells_for(pixels, cell, most),
{
    let whole: u64 = pixels / cell as u64;
    let rest: u64 = pixels % cell as u64;
    if whole >= most as u64 {
        most
    } else if rest == 0 {
        whole as u16
    } else {
        (whole + 1) as u16
    }
}

/// Where an image of some shown size in pixels goes: in a box in the middle of the terminal.
pub open spec fn layout(
    bounds: PreviewBounds,
    shown_width_px: u64,
    shown_height_px: u64,
    terminal_cols: u16,
    terminal_rows: u16,
) -> InlinePreviewLayout {
    let cols = cells_for(shown_width_px, bounds.cell_width_px, bounds.max_cols);
    let rows = cells_for(shown_height_px, bounds.cell_height_px, bounds.max_rows);
    let x = if terminal_cols > cols + 2 {
        (terminal_cols - (cols + 2)) / 2
    } else {
        0
    };
    let y = if terminal_rows > rows + 2 {
        (terminal_rows - (rows + 2)) / 2
    } else {
        0
    };
    InlinePreviewLayout {
        x: x as u16,
        y: y as u16,
        width: (cols + 2) as u16,
        height: (rows + 2) as u16,
        image_x: (x + 1) as u16,
        image_y: (y + 1) as u16,
        image_cols: cols as u16,
        image_rows: rows as u16,
    }
}

/// Where an image of some shown size in pixels goes.
pub fn inline_layout(
    bounds: &PreviewBounds,
    shown_width_px: u64,
    shown_height_px: u64,
    terminal_cols: u16,
    terminal_rows: u16,
) -> (r: InlinePreviewLayout)
    requires
        bounds.cell_width_px > 0,
        bounds.cell_height_px > 0,
        bounds.max_cols <= 65533,
        bounds.max_rows <= 65533,
    ensures
        r == layout(*bounds, shown_width_px, shown_height_px, terminal_cols, terminal_rows),
{
    let image_cols = cells_for_pixels(shown_width_px, bounds.cell_width_px, bounds.max_cols);
    let image_rows = cells_for_pixels(shown_height_px, bounds.cell_height_px, bounds.max_rows);
    proof {
        lemma_cells_bounded(shown_width_px, bounds.cell_width_px, bounds.max_cols);
        lemma_cells_bounded(shown_height_px, bounds.cell_height_px, bounds.max_rows);
    }
    let width: u16 = image_cols + 2;
    let height: u16 = image_rows + 2;
    let x: u16 = if terminal_cols > width {
        (terminal_cols - width) / 2
    } else {
        0
    };
    let y: u16 = if terminal_rows > height {
        (terminal_rows - height) / 2
    } else {
        0
    };
    InlinePreviewLayout {
        x,
        y,
        width,
        height,
        image_x: x + 1,
        image_y: y + 1,
        image_cols,
        image_rows,
    }
}

proof fn lemma_cells_bounded(pixels: u64, cell: u32, most: u16)
    requires
        cell > 0,
    ensures
        0 <= cells_for(pixels, cell, most) <= most,
        pixels > 0 && most > 0 ==> cells_for(pixels, cell, most) > 0,
{
    let p = pixels as int;
    let c = cell as int;
    assert(0 <= p / c && (p > 0 && p / c == 0 ==> p % c != 0)) by (nonlinear_arith)
        requires
            p >= 0,
            c > 0,
    ;
}

/// The command that takes the preview back.
pub open spec fn clear_sequence() -> Seq<char> {
    "\x1b_Ga=d,d=I,i=2000001,q=2;\x1b\\"@
}

/// The bytes that take the preview back.
pub fn clear_inline_preview_bytes() -> (r: Vec<u8>)
    ensures
        r@ == encode_utf8(clear_sequence()),
{
    "\x1b_Ga=d,d=I,i=2000001,q=2;\x1b\\".as_bytes_vec()
}

/// A command that carries some bytes as base64, and says whether more follow. `lead` is what it says
/// besides.
pub open spec fn kitty_command(lead: Seq<char>, more: bool, chunk: Seq<u8>) -> Seq<char> {
    "\x1b_G"@ + lead + "m="@ + (if more {
        "1"@
    } else {
        "0"@
    }) + ";"@ + base64_text(chunk) + "\x1b\\"@
}

/// The commands that carry some bytes, in pieces. `lead` is what the first one says besides.
pub open spec fn kitty_commands(lead: Seq<char>, data: Seq<u8>) -> Seq<char>
    decreases data.len(),
{
    if data.len() == 0 {
        Seq::empty()
    } else {
        let n = if data.len() < KITTY_CHUNK_BYTES {
            data.len() as int
        } else {
            KITTY_CHUNK_BYTES as int
        };
        kitty_command(lead, n < data.len(), data.take(n)) + kitty_commands(
            Seq::empty(),
            data.skip(n),
        )
    }
}

fn append_kitty_command(out: &mut String, lead: &str, more: bool, chunk: &[u8])
    ensures
        final(out)@ == old(out)@ + kitty_command(lead@, more, chunk@),
{
    let encoded = encode_base64(chunk);
    out.append("\x1b_G");
    out.append(lead);
    out.append("m=");
    if more {
        out.append("1");
    } else {
        out.append("0");
    }
    out.append(";");
    out.append(encoded.as_str());
    out.append("\x1b\\");
    assert(out@ =~= old(out)@ + kitty_command(lead@, more, chunk@));
}

fn encode_kitty_data(out: &mut String, control: &str, data: &[u8])
    ensures
        final(out)@ == old(out)@ + kitty_commands(control@ + ","@, data@),
{
    let total: usize = data.len();
    let mut from: usize = 0;
    let mut lead = control.to_owned();
    lead.append(",");
    let ghost all = old(out)@ + kitty_commands(control@ + ","@, data@);
    assert(data@.skip(0) =~= data@);
    while from < total
        invariant
            from <= total == data@.len(),
            all == out@ + kitty_commands(lead@, data@.skip(from as int)),
        decreases total - from,
    {
        let ghost rest = data@.skip(from as int);
        let ghost before = out@;
        let n: usize = if total - from < KITTY_CHUNK_BYTES {
            total - from
        } else {
            KITTY_CHUNK_BYTES
        };
        let chunk = slice_subrange(data, from, from + n);
        append_kitty_command(out, lead.as_str(), n < total - from, chunk);
        proof {
            assert(chunk@ =~= rest.take(n as int));
            assert(rest.skip(n as int) =~= data@.skip(from + n));
            let piece = kitty_command(lead@, n < rest.len(), chunk@);
            let tail = kitty_commands(Seq::empty(), rest.skip(n as int));
            assert(kitty_commands(lead@, rest) == piece + tail);
            assert(before + (piece + tail) =~= (before + piece) + tail);
        }
        lead = String::new();
        from += n;
    }
    assert(data@.skip(from as int) =~= Seq::<u8>::empty());
    assert(out@ + Seq::<char>::empty() =~= out@);
}

/// The sequence that shows a preview: the cursor is saved, the last preview taken back, the cursor
/// put where the image goes, the image sent, and the cursor restored.
pub open spec fn preview_sequence(png: Seq<u8>, layout: InlinePreviewLayout) -> Seq<char> {
    "\x1b7"@ + clear_sequence() + "\x1b["@ + decimal((layout.image_y + 1) as nat) + ";"@ + decimal(
        (layout.image_x + 1) as nat,
    ) + "H"@ + kitty_commands(
        "a=T,t=d,f=100,i=2000001,p=1,c="@ + decimal(layout.image_cols as nat) + ",r="@ + decimal(
            layout.image_rows as nat,
        ) + ",z=100,C=1,q=2"@ + ","@,
        png,
    ) + "\x1b8"@
}

/// The bytes that show a preview.
pub fn encode_inline_png(png: &[u8], layout: InlinePreviewLayout) -> (r: Vec<u8>)
    ensures
        r@ == encode_utf8(preview_sequence(png@, layout)),
{
    let mut text = "\x1b7".to_owned();
    text.append("\x1b_Ga=d,d=I,i=2000001,q=2;\x1b\\");
    text.append("\x1b[");
    push_decimal(&mut text, layout.image_y as u64 + 1);
    text.append(";");
    push_decimal(&mut text, layout.image_x as u64 + 1);
    text.append("H");
    let mut control = "a=T,t=d,f=100,i=2000001,p=1,c=".to_owned();
    push_decimal(&mut control, layout.image_cols as u64);
    control.append(",r=");
    push_decimal(&mut control, layout.image_rows as u64);
    control.append(",z=100,C=1,q=2");
    encode_kitty_data(&mut text, control.as_str(), png);
    text.append("\x1b8");
    assert(text@ == preview_sequence(png@, layout));
    text.as_str().as_bytes_vec()
}

/// The extension under which an image is staged.
pub open spec fn staged_extension(extension: Seq<char>) -> Seq<char> {
    match crate::client::paste::image_kind(extension) {
        Some(kind) => kind,
        None => "img"@,
    }
}

/// The extension under which an image is staged: that of its kind, or one that stands for any image.
pub fn sanitized_extension(extension: &str) -> (r: &'static str)
    ensures
        r@ == staged_extension(extension@),
{
    match crate::client::paste::recognized_image_extension(extension) {
        Some(kind) => kind,
        None => "img",
    }
}

/// A letter or digit of ASCII, a hyphen or an underscore.
pub open spec fn safe_char(c: char) -> bool {
    ('a' as int <= c as int <= 'z' as int) || ('A' as int <= c as int <= 'Z' as int) || ('0' as int
        <= c as int <= '9' as int) || c == '-' || c == '_'
}

/// The most characters of a name that are kept.
pub const STEM_MAX_CHARS: usize = 48;

/// A name with a hyphen for every character that is not safe, and not too long.
pub open spec fn safe_stem_of(stem: Option<Seq<char>>) -> Seq<char> {
    let name = match stem {
        Some(s) => s,
        None => "image"@,
    };
    if name.len() == 0 {
        "image"@
    } else {
        Seq::new(
            if name.len() < STEM_MAX_CHARS {
                name.len()
            } else {
                STEM_MAX_CHARS as nat
            },
            |i: int|
                if safe_char(name[i]) {
                    name[i]
                } else {
                    '-'
                },
        )
    }
}

fn is_safe(c: char) -> (r: bool)
    ensures
        r == safe_char(c),
{
    let code = crate::text::code_point(c);
    (0x61 <= code && code <= 0x7a) || (0x41 <= code && code <= 0x5a) || (0x30 <= code && code
        <= 0x39) || c == '-' || c == '_'
}

/// A name that is safe in every path.
pub fn safe_stem(stem: &Option<String>) -> (r: String)
    ensures
        r@ == safe_stem_of(opt_text(*stem)),
{
    let own = "image".to_owned();
    let name = match stem {
        Some(name) => name,
        None => &own,
    };
    let chars = chars_of(name.as_str());
    if chars.len() == 0 {
        return own;
    }
    let n: usize = if chars.len() < STEM_MAX_CHARS {
        chars.len()
    } else {
        STEM_MAX_CHARS
    };
    let mut text = String::new();
    let mut i: usize = 0;
    let ghost whole = safe_stem_of(Some(chars@));
    while i < n
        invariant
            i <= n <= chars@.len(),
            n == whole.len(),
            chars@.len() > 0,
            whole == safe_stem_of(Some(chars@)),
            text@ == whole.take(i as int),
        decreases n - i,
    {
        let c = chars[i];
        if is_safe(c) {
            text.push(c);
        } else {
            text.push('-');
        }
        i += 1;
        assert(text@ =~= whole.take(i as int));
    }
    assert(whole.take(i as int) =~= whole);
    text
}

/// A path that every system takes apart in the same way: no backslash, colon or leading double slash
/// that only some give a meaning to.
pub open spec fn portable(path: Seq<char>) -> bool {
    &&& forall|i: int| 0 <= i < path.len() ==> #[trigger] path[i] != '\\' && path[i] != ':'
    &&& !(path.len() >= 2 && path[0] == '/' && path[1] == '/')
}

/// A name without its extension: what stands before the last dot, unless that dot is the first
/// character.
pub open spec fn without_extension(name: Seq<char>) -> Seq<char> {
    match last_before(name, name.len() as int, '.') {
        Some(at) if at > 0 => name.take(at),
        _ => name,
    }
}

/// The last name of a path, without its extension.
pub open spec fn stem_of(path: Seq<char>) -> Option<Seq<char>> {
    match file_name(path) {
        Some(name) => Some(without_extension(name)),
        None => None,
    }
}

/// `Path::file_stem` gives the last name of a path without its extension; slashes and single dots at
/// the end do not count, and there is none where the path ends in two dots. That is stated for paths
/// that every system takes apart in the same way; what it gives for the others differs between
/// systems and is left open.
#[verifier::external_body]
fn file_stem(path: &str) -> (r: Option<String>)
    ensures
        portable(path@) ==> opt_text(r) == stem_of(path@),
{
    match std::path::Path::new(path).file_stem() {
        Some(stem) => stem.to_str().map(str::to_owned),
        None => None,
    }
}

/// A name that is safe in every path, made of a file's name.
pub fn sanitized_stem(name: &str) -> (r: String)
    ensures
        exists|stem: Option<Seq<char>>| r@ == #[trigger] safe_stem_of(stem),
        portable(name@) ==> r@ == safe_stem_of(stem_of(name@)),
{
    let stem = file_stem(name);
    safe_stem(&stem)
}

/// What `Sha256::digest` makes of bytes, in hexadecimal.
pub uninterp spec fn sha256_hex(data: Seq<u8>) -> Seq<char>;

pub open spec fn hex_char(c: char) -> bool {
    ('0' as int <= c as int <= '9' as int) || ('a' as int <= c as int <= 'f' as int)
}

/// `Sha256::digest` hashes bytes; the hash is written in lower-case hexadecimal, which is sixty-four
/// characters. The hash is a function of the bytes.
#[verifier::external_body]
fn hash(data: &[u8]) -> (r: String)
    ensures
        r@ == sha256_hex(data@),
        r@.len() == 64,
        forall|i: int| 0 <= i < 64 ==> hex_char(#[trigger] r@[i]),
{
    format!("{:x}", <sha2::Sha256 as sha2::Digest>::digest(data))
}

/// The name under which an image is staged.
pub open spec fn staged_name(stem: Option<Seq<char>>, extension: Seq<char>, data: Seq<u8>) -> Seq<
    char,
> {
    safe_stem_of(stem) + "-"@ + sha256_hex(data) + "."@ + staged_extension(extension)
}

/// The name under which an image is staged: the safe name of its file, the hash of its bytes, and
/// the extension of its kind.
pub fn staged_file_name(stem: &Option<String>, extension: &str, data: &[u8]) -> (r: String)
    ensures
        r@ == staged_name(opt_text(*stem), extension@, data@),
        is_plain_name(r@),
{
    let mut text = safe_stem(stem);
    let ghost head = text@;
    text.append("-");
    let digest = hash(data);
    text.append(digest.as_str());
    text.append(".");
    let kind = sanitized_extension(extension);
    text.append(kind);
    proof {
        lemma_stem_is_safe(opt_text(*stem));
        lemma_kind_is_plain(extension@);
        reveal_strlit("-");
        reveal_strlit(".");
        assert(text@ == head + "-"@ + digest@ + "."@ + kind@);
        assert forall|i: int| 0 <= i < text@.len() implies plain_char(#[trigger] text@[i]) by {
            let a = head.len() as int;
            let b = a + 1 + 64;
            if i < a {
                assert(safe_char(head[i]));
            } else if i == a {
                assert(text@[i] == "-"@[0]);
            } else if i < b {
                assert(hex_char(digest@[i - a - 1]));
            } else if i == b {
                assert(text@[i] == "."@[0]);
            } else {
                assert(plain_char(kind@[i - b - 1]));
            }
        }
    }
    text
}

/// The name under which an image of a file is staged. Which part of a path it keeps is left to the
/// system where systems differ; it is a plain name of the image's kind in any case.
pub fn stage_for_local_viewer(name: &str, extension: &str, data: &[u8]) -> (r: String)
    ensures
        is_plain_name(r@),
        exists|stem: Option<Seq<char>>| r@ == #[trigger] staged_name(stem, extension@, data@),
        portable(name@) ==> r@ == staged_name(stem_of(name@), extension@, data@),
{
    let stem = file_stem(name);
    staged_file_name(&stem, extension, data)
}

/// A character that stands for itself in every path.
pub open spec fn plain_char(c: char) -> bool {
    safe_char(c) || c == '.'
}

/// A name of a file, and of one in the directory itself.
pub open spec fn is_plain_name(name: Seq<char>) -> bool {
    &&& name.len() > 64
    &&& forall|i: int| 0 <= i < name.len() ==> plain_char(#[trigger] name[i])
}

proof fn lemma_stem_is_safe(stem: Option<Seq<char>>)
    ensures
        safe_stem_of(stem).len() > 0,
        forall|i: int| 0 <= i < safe_stem_of(stem).len() ==> safe_char(#[trigger] safe_stem_of(stem)[i]),
{
    reveal_strlit("image");
    let s = safe_stem_of(stem);
    assert("image"@.len() == 5);
    assert forall|i: int| 0 <= i < s.len() implies safe_char(#[trigger] s[i]) by {
        if s == "image"@ {
            assert("image"@[0] == 'i' && "image"@[1] == 'm' && "image"@[2] == 'a' && "image"@[3]
                == 'g' && "image"@[4] == 'e');
        }
    }
}

proof fn lemma_kind_is_plain(extension: Seq<char>)
    ensures
        forall|i: int|
            0 <= i < staged_extension(extension).len() ==> plain_char(
                #[trigger] staged_extension(extension)[i],
            ),
{
    reveal_strlit("png");
    reveal_strlit("jpg");
    reveal_strlit("gif");
    reveal_strlit("webp");
    reveal_strlit("bmp");
    reveal_strlit("img");
    let s = staged_extension(extension);
    assert("png"@.len() == 3 && "jpg"@.len() == 3 && "gif"@.len() == 3 && "webp"@.len() == 4
        && "bmp"@.len() == 3 && "img"@.len() == 3);
    assert("png"@[0] == 'p' && "png"@[1] == 'n' && "png"@[2] == 'g');
    assert("jpg"@[0] == 'j' && "jpg"@[1] == 'p' && "jpg"@[2] == 'g');
    assert("gif"@[0] == 'g' && "gif"@[1] == 'i' && "gif"@[2] == 'f');
    assert("webp"@[0] == 'w' && "webp"@[1] == 'e' && "webp"@[2] == 'b' && "webp"@[3] == 'p');
    assert("bmp"@[0] == 'b' && "bmp"@[1] == 'm' && "bmp"@[2] == 'p');
    assert("img"@[0] == 'i' && "img"@[1] == 'm' && "img"@[2] == 'g');
}

/// Whether a staged image is old enough to be removed. `age` is in nanoseconds.
pub fn is_stale(age: u128) -> (r: bool)
    ensures
        r == (age > CACHE_MAX_AGE_NANOS),
{
    age > CACHE_MAX_AGE_NANOS
}

/// A preview lies inside the terminal, with the image inside its box.
pub proof fn previews_fit_the_terminal(
    png: Seq<u8>,
    terminal_cols: u16,
    terminal_rows: u16,
    cell_width_px: u32,
    cell_height_px: u32,
    shown_width_px: u64,
    shown_height_px: u64,
)
    requires
        room(png, terminal_cols, terminal_rows, cell_width_px, cell_height_px) is Some,
        shown_width_px > 0,
        shown_height_px > 0,
    ensures
        ({
            let bounds = room(
                png,
                terminal_cols,
                terminal_rows,
                cell_width_px,
                cell_height_px,
            )->0;
            let l = layout(bounds, shown_width_px, shown_height_px, terminal_cols, terminal_rows);
            &&& bounds.cell_width_px > 0 && bounds.cell_height_px > 0
            &&& bounds.max_cols <= 65533 && bounds.max_rows <= 65533
            &&& l.x + l.width <= terminal_cols
            &&& l.y + l.height <= terminal_rows
            &&& l.image_x == l.x + 1 && l.image_y == l.y + 1
            &&& l.width == l.image_cols + 2 && l.height == l.image_rows + 2
            &&& 1 <= l.image_cols <= bounds.max_cols
            &&& 1 <= l.image_rows <= bounds.max_rows
        }),
{
    let bounds = room(png, terminal_cols, terminal_rows, cell_width_px, cell_height_px)->0;
    lemma_cells_bounded(shown_width_px, bounds.cell_width_px, bounds.max_cols);
    lemma_cells_bounded(shown_height_px, bounds.cell_height_px, bounds.max_rows);
}

/// The size of a PNG image is that in its header, and anything that does not begin as one has none.
pub proof fn sizes_are_those_of_the_header(data: Seq<u8>)
    ensures
        dimensions(data) is Some ==> data.len() >= 24 && data[0] == 0x89 && data[1] == 0x50 && data[2]
            == 0x4e && data[3] == 0x47 && data[12] == 0x49 && data[13] == 0x48 && data[14] == 0x44
            && data[15] == 0x52,
        dimensions(data) matches Some((width, height)) ==> {
            &&& width > 0 && height > 0
            &&& width == data[16] * 0x1000000 + data[17] * 0x10000 + data[18] * 0x100 + data[19]
            &&& height == data[20] * 0x1000000 + data[21] * 0x10000 + data[22] * 0x100 + data[23]
        },
        data.len() >= 24 && data.take(8) == seq![0x89u8, 0x50, 0x4e, 0x47, 0x0d, 0x0a, 0x1a, 0x0a]
            && data.subrange(12, 16) == seq![0x49u8, 0x48, 0x44, 0x52] && (data[16] > 0 || data[17] > 0
            || data[18] > 0 || data[19] > 0) && (data[20] > 0 || data[21] > 0 || data[22] > 0 || data[23]
            > 0) ==> dimensions(data) is Some,
{
    if data.len() >= 24 && data.take(8) == png_signature() && data.subrange(12, 16) == header_name() {
        assert(data.take(8)[0] == data[0] && data.take(8)[1] == data[1] && data.take(8)[2] == data[2]
            && data.take(8)[3] == data[3]);
        let name = data.subrange(12, 16);
        assert(name[0] == data[12] && name[1] == data[13] && name[2] == data[14] && name[3]
            == data[15]);
    }
}

/// A preview leaves three cells free on every side, and a terminal without room for that shows none.
pub proof fn previews_keep_a_margin(
    png: Seq<u8>,
    terminal_cols: u16,
    terminal_rows: u16,
    cell_width_px: u32,
    cell_height_px: u32,
)
    ensures
        ({
            let bounds = room(png, terminal_cols, terminal_rows, cell_width_px, cell_height_px);
            &&& bounds is Some <==> dimensions(png) is Some && terminal_cols >= 8 && terminal_rows >= 6
            &&& bounds matches Some(b) ==> {
                &&& b.max_cols == terminal_cols - 6
                &&& terminal_rows > 6 ==> b.max_rows == terminal_rows - 6
                &&& terminal_rows == 6 ==> b.max_rows == 1
                &&& cell_width_px > 0 ==> b.cell_width_px == cell_width_px
                &&& cell_height_px > 0 ==> b.cell_height_px == cell_height_px
                &&& cell_width_px == 0 ==> b.cell_width_px == 1
                &&& cell_height_px == 0 ==> b.cell_height_px == 1
            }
        }),
{
}

/// An image takes as many cells as its pixels need and no more, unless there are not so many.
pub proof fn images_take_the_cells_they_need(pixels: u64, cell: u32, most: u16)
    requires
        cell > 0,
    ensures
        ({
            let n = cells_for(pixels, cell, most);
            &&& n <= most
            &&& n < most ==> n * cell >= pixels
            &&& n > 0 ==> (n - 1) * cell < pixels
        }),
{
    let p = pixels as int;
    let c = cell as int;
    let n = cells_for(pixels, cell, most);
    let q = p / c;
    assert(p == q * c + p % c && 0 <= p % c < c) by (nonlinear_arith)
        requires
            c > 0,
            q == p / c,
    ;
    assert((q + 1) * c == q * c + c && (q - 1) * c == q * c - c) by (nonlinear_arith);
    if p % c == 0 {
        assert(n <= q);
        assert((n - 1) * c <= (q - 1) * c) by (nonlinear_arith)
            requires
                n <= q,
                c > 0,
        ;
        if n > 0 && p == 0 {
            assert(q == 0) by (nonlinear_arith)
                requires
                    q * c == 0,
                    c > 0,
            ;
        }
    } else {
        assert(n <= q + 1);
        assert((n - 1) * c <= q * c) by (nonlinear_arith)
            requires
                n <= q + 1,
                c > 0,
        ;
    }
}

/// A preview stands in the middle of the terminal, one cell off at most.
pub proof fn previews_stand_in_the_middle(
    bounds: PreviewBounds,
    shown_width_px: u64,
    shown_height_px: u64,
    terminal_cols: u16,
    terminal_rows: u16,
)
    requires
        bounds.cell_width_px > 0,
        bounds.cell_height_px > 0,
        bounds.max_cols + 2 <= terminal_cols,
        bounds.max_rows + 2 <= terminal_rows,
    ensures
        ({
            let l = layout(bounds, shown_width_px, shown_height_px, terminal_cols, terminal_rows);
            let right = terminal_cols - l.x - l.width;
            let below = terminal_rows - l.y - l.height;
            &&& l.x == right || l.x + 1 == right
            &&& l.y == below || l.y + 1 == below
            &&& l.image_cols == l.width - 2 && l.image_rows == l.height - 2
            &&& l.image_x == l.x + 1 && l.image_y == l.y + 1
        }),
{
    lemma_cells_bounded(shown_width_px, bounds.cell_width_px, bounds.max_cols);
    lemma_cells_bounded(shown_height_px, bounds.cell_height_px, bounds.max_rows);
}

/// A staged image keeps the letters, digits, hyphens and underscores of its name where they stand,
/// up to forty-eight characters; anything else becomes a hyphen. A name that is missing is made up.
pub proof fn safe_names_keep_what_is_safe(name: Seq<char>, i: int)
    requires
        0 <= i < safe_stem_of(Some(name)).len(),
        name.len() > 0,
    ensures
        ({
            let c = name[i];
            let kept = ('a' as int <= c as int <= 'z' as int) || ('A' as int <= c as int <= 'Z' as int)
                || ('0' as int <= c as int <= '9' as int) || c == '-' || c == '_';
            &&& kept ==> safe_stem_of(Some(name))[i] == c
            &&& !kept ==> safe_stem_of(Some(name))[i] == '-'
        }),
        name.len() <= 48 ==> safe_stem_of(Some(name)).len() == name.len(),
        name.len() > 48 ==> safe_stem_of(Some(name)).len() == 48,
        safe_stem_of(None) == "image"@,
        safe_stem_of(Some(Seq::empty())) == "image"@,
{
    reveal_strlit("image");
    let none = safe_stem_of(None);
    assert forall|k: int| 0 <= k < none.len() implies #[trigger] none[k] == "image"@[k] by {
    }
    assert(none =~= "image"@);
}

} // verus!
