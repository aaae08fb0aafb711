//! Loading an image for a preview: what is accepted, and what it is.

use crate::client::image_preview::png_signature;
use crate::text::{decimal, push_decimal};
use crate::search::bytes_stand;
use vstd::prelude::*;

verus! {

/// An image for a preview.
#[derive(Debug, PartialEq, Eq)]
pub struct ImagePreview {
    pub name: String,
    pub extension: String,
    pub data: Vec<u8>,
}

/// Why there is no preview.
#[derive(Debug, PartialEq, Eq)]
pub enum ImagePreviewError {
    Io(String),
    NotAFile,
    UnsupportedFormat,
    TooLarge,
}

impl ImagePreviewError {
    /// The words of the error. `limit` is the most bytes that a preview may have.
    pub fn message(&self, limit: u64) -> (r: String)
        ensures
            r@ == (match *self {
                ImagePreviewError::Io(err) => "could not read image: "@ + err@,
                ImagePreviewError::NotAFile => "image target is not a regular file"@,
                ImagePreviewError::UnsupportedFormat => "unsupported or invalid image format"@,
                ImagePreviewError::TooLarge => "image exceeds the "@ + decimal(
                    (limit / 1048576) as nat,
                ) + " MiB preview limit"@,
            }),
    {
        match self {
            ImagePreviewError::Io(err) => {
                let mut text = "could not read image: ".to_owned();
                text.append(err.as_str());
                text
            },
            ImagePreviewError::NotAFile => "image target is not a regular file".to_owned(),
            ImagePreviewError::UnsupportedFormat => "unsupported or invalid image format".to_owned(),
            ImagePreviewError::TooLarge => {
                let mut text = "image exceeds the ".to_owned();
                push_decimal(&mut text, limit / 1048576);
                text.append(" MiB preview limit");
                text
            },
        }
    }
}

/// `data` begins with `mark`.
pub open spec fn starts(data: Seq<u8>, mark: Seq<u8>) -> bool {
    data.len() >= mark.len() && data.take(mark.len() as int) == mark
}

/// The kind of an image, by the bytes that it begins with.
pub open spec fn kind_of(data: Seq<u8>) -> Option<Seq<char>> {
    if starts(data, png_signature()) {
        Some("png"@)
    } else if starts(data, seq![0xff, 0xd8, 0xff]) {
        Some("jpg"@)
    } else if starts(data, seq![0x47, 0x49, 0x46, 0x38, 0x37, 0x61]) || starts(
        data,
        seq![0x47, 0x49, 0x46, 0x38, 0x39, 0x61],
    ) {
        Some("gif"@)
    } else if data.len() >= 12 && starts(data, seq![0x52, 0x49, 0x46, 0x46]) && data.subrange(8, 12)
        == seq![0x57u8, 0x45, 0x42, 0x50] {
        Some("webp"@)
    } else if starts(data, seq![0x42, 0x4d]) {
        Some("bmp"@)
    } else {
        None
    }
}

fn starts_with(data: &[u8], mark: &Vec<u8>) -> (r: bool)
    ensures
        r == starts(data@, mark@),
{
    if data.len() < mark.len() {
        return false;
    }
    assert(data@.take(mark@.len() as int) =~= data@.subrange(0, mark@.len() as int));
    bytes_stand(data, 0, mark.as_slice())
}

/// The kind of an image, by the bytes that it begins with, whatever its file is called.
pub fn detected_extension(data: &[u8]) -> (r: Option<&'static str>)
    ensures
        match r {
            Some(kind) => kind_of(data@) == Some(kind@),
            None => kind_of(data@) is None,
        },
{
    let png: Vec<u8> = vec![0x89, 0x50, 0x4e, 0x47, 0x0d, 0x0a, 0x1a, 0x0a];
    let jpg: Vec<u8> = vec![0xff, 0xd8, 0xff];
    let gif87: Vec<u8> = vec![0x47, 0x49, 0x46, 0x38, 0x37, 0x61];
    let gif89: Vec<u8> = vec![0x47, 0x49, 0x46, 0x38, 0x39, 0x61];
    let riff: Vec<u8> = vec![0x52, 0x49, 0x46, 0x46];
    let bmp: Vec<u8> = vec![0x42, 0x4d];
    assert(png@ =~= png_signature());
    assert(jpg@ =~= seq![0xff, 0xd8, 0xff]);
    assert(gif87@ =~= seq![0x47, 0x49, 0x46, 0x38, 0x37, 0x61]);
    assert(gif89@ =~= seq![0x47, 0x49, 0x46, 0x38, 0x39, 0x61]);
    assert(riff@ =~= seq![0x52, 0x49, 0x46, 0x46]);
    assert(bmp@ =~= seq![0x42, 0x4d]);
    if starts_with(data, &png) {
        return Some("png");
    }
    if starts_with(data, &jpg) {
        return Some("jpg");
    }
    if starts_with(data, &gif87) || starts_with(data, &gif89) {
        return Some("gif");
    }
    let webp = data.len() >= 12 && starts_with(data, &riff) && data[8] == 0x57 && data[9] == 0x45
        && data[10] == 0x42 && data[11] == 0x50;
    proof {
        let name = seq![0x57u8, 0x45, 0x42, 0x50];
        if data@.len() >= 12 {
            let part = data@.subrange(8, 12);
            assert(part[0] == data@[8] && part[1] == data@[9] && part[2] == data@[10] && part[3]
                == data@[11]);
            if data@[8] == 0x57 && data@[9] == 0x45 && data@[10] == 0x42 && data@[11] == 0x50 {
                assert(part =~= name);
            }
        }
    }
    if webp {
        return Some("webp");
    }
    if starts_with(data, &bmp) {
        return Some("bmp");
    }
    None
}

/// Whether a file may be read for a preview: `is_file` says whether it is a regular one, `len` how
/// many bytes it has.
pub fn check_file(is_file: bool, len: u64, limit: u64) -> (r: Result<(), ImagePreviewError>)
    ensures
        r == (if !is_file {
            Err::<(), ImagePreviewError>(ImagePreviewError::NotAFile)
        } else if len > limit {
            Err(ImagePreviewError::TooLarge)
        } else {
            Ok(())
        }),
{
    if !is_file {
        return Err(ImagePreviewError::NotAFile);
    }
    if len > limit {
        return Err(ImagePreviewError::TooLarge);
    }
    Ok(())
}

/// The preview of what was read from a file. `name` is the file's name, where it is text. A file
/// that grew beyond the limit meanwhile is refused all the same.
pub fn load(name: Option<String>, data: Vec<u8>, limit: u64) -> (r: Result<
    ImagePreview,
    ImagePreviewError,
>)
    ensures
        if data@.len() > limit {
            r == Err::<ImagePreview, ImagePreviewError>(ImagePreviewError::TooLarge)
        } else {
            match kind_of(data@) {
                None => r == Err::<ImagePreview, ImagePreviewError>(
                    ImagePreviewError::UnsupportedFormat,
                ),
                Some(kind) => {
                    &&& r matches Ok(preview)
                    &&& preview.data@ == data@
                    &&& preview.extension@ == kind
                    &&& preview.name@ == (match name {
                        Some(n) if n@.len() > 0 => n@,
                        _ => "image"@,
                    })
                },
            }
        },
{
    if data.len() as u64 > limit {
        return Err(ImagePreviewError::TooLarge);
    }
    let extension = match detected_extension(data.as_slice()) {
        Some(extension) => extension,
        None => return Err(ImagePreviewError::UnsupportedFormat),
    };
    let name = match name {
        Some(name) => if name.as_str().is_empty() {
            "image".to_owned()
        } else {
            name
        },
        None => "image".to_owned(),
    };
    Ok(ImagePreview { name, extension: extension.to_owned(), data })
}

/// A preview can be staged under the extension of its kind.
pub proof fn previews_have_known_kinds(data: Seq<u8>)
    requires
        kind_of(data) is Some,
    ensures
        crate::client::image_preview::staged_extension(kind_of(data)->0) == kind_of(data)->0,
{
    reveal_strlit("png");
    reveal_strlit("jpg");
    reveal_strlit("jpeg");
    reveal_strlit("gif");
    reveal_strlit("webp");
    reveal_strlit("bmp");
    assert("png"@.len() == 3 && "jpg"@.len() == 3 && "jpeg"@.len() == 4 && "gif"@.len() == 3
        && "webp"@.len() == 4 && "bmp"@.len() == 3);
    assert("png"@[0] == 'p' && "jpg"@[0] == 'j' && "gif"@[0] == 'g' && "webp"@[0] == 'w' && "jpeg"@[0]
        == 'j' && "bmp"@[0] == 'b');
    let kind = kind_of(data)->0;
    use_first_letter(kind, "png"@);
    use_first_letter(kind, "jpg"@);
    use_first_letter(kind, "jpeg"@);
    use_first_letter(kind, "gif"@);
    use_first_letter(kind, "webp"@);
    use_first_letter(kind, "bmp"@);
}

/// Texts that are the same but for case begin with the same letter but for case.
proof fn use_first_letter(a: Seq<char>, b: Seq<char>)
    requires
        b.len() > 0,
    ensures
        crate::client::terminal::same_ignoring_case(a, b) ==> a.len() == b.len()
            && crate::client::terminal::lower(a[0]) == crate::client::terminal::lower(b[0]),
        a == b ==> crate::client::terminal::same_ignoring_case(a, b),
{
}

/// The kind of an image is told by its first bytes alone, whatever follows them.
pub proof fn images_are_known_by_their_first_bytes(rest: Seq<u8>, size: Seq<u8>)
    requires
        size.len() == 4,
    ensures
        kind_of(seq![0x89u8, 0x50, 0x4e, 0x47, 0x0d, 0x0a, 0x1a, 0x0a] + rest) == Some("png"@),
        kind_of(seq![0xffu8, 0xd8, 0xff] + rest) == Some("jpg"@),
        kind_of(seq![0x47u8, 0x49, 0x46, 0x38, 0x37, 0x61] + rest) == Some("gif"@),
        kind_of(seq![0x47u8, 0x49, 0x46, 0x38, 0x39, 0x61] + rest) == Some("gif"@),
        kind_of(seq![0x52u8, 0x49, 0x46, 0x46] + size + seq![0x57u8, 0x45, 0x42, 0x50] + rest) == Some(
            "webp"@,
        ),
        kind_of(seq![0x42u8, 0x4d] + rest) == Some("bmp"@),
{
    lemma_first_bytes(png_signature(), rest);
    lemma_first_bytes(seq![0xffu8, 0xd8, 0xff], rest);
    lemma_first_bytes(seq![0x47u8, 0x49, 0x46, 0x38, 0x37, 0x61], rest);
    lemma_first_bytes(seq![0x47u8, 0x49, 0x46, 0x38, 0x39, 0x61], rest);
    lemma_first_bytes(seq![0x42u8, 0x4d], rest);
    let riff = seq![0x52u8, 0x49, 0x46, 0x46];
    let webp = riff + size + seq![0x57u8, 0x45, 0x42, 0x50] + rest;
    assert(webp =~= riff + (size + seq![0x57u8, 0x45, 0x42, 0x50] + rest));
    lemma_first_bytes(riff, size + seq![0x57u8, 0x45, 0x42, 0x50] + rest);
    assert(webp.subrange(8, 12) =~= seq![0x57u8, 0x45, 0x42, 0x50]);
}

/// An image of a known kind begins with the first byte of that kind.
pub proof fn other_bytes_are_no_image(data: Seq<u8>)
    ensures
        kind_of(data) is Some ==> data.len() >= 2 && (data[0] == 0x89 || data[0] == 0xff || data[0]
            == 0x47 || data[0] == 0x52 || data[0] == 0x42),
        data.len() >= 4 && data[0] == 0x52 && kind_of(data) is Some ==> data.len() >= 12 && data[8]
            == 0x57 && data[9] == 0x45 && data[10] == 0x42 && data[11] == 0x50,
{
    lemma_begins(data, png_signature());
    lemma_begins(data, seq![0xffu8, 0xd8, 0xff]);
    lemma_begins(data, seq![0x47u8, 0x49, 0x46, 0x38, 0x37, 0x61]);
    lemma_begins(data, seq![0x47u8, 0x49, 0x46, 0x38, 0x39, 0x61]);
    lemma_begins(data, seq![0x52u8, 0x49, 0x46, 0x46]);
    lemma_begins(data, seq![0x42u8, 0x4d]);
    if data.len() >= 12 {
        let kind = data.subrange(8, 12);
        assert(kind[0] == data[8] && kind[1] == data[9] && kind[2] == data[10] && kind[3] == data[11]);
    }
}

proof fn lemma_begins(data: Seq<u8>, mark: Seq<u8>)
    requires
        mark.len() > 0,
    ensures
        starts(data, mark) ==> data.len() >= mark.len() && data[0] == mark[0],
{
    if starts(data, mark) {
        assert(data.take(mark.len() as int)[0] == data[0]);
    }
}

proof fn lemma_first_bytes(mark: Seq<u8>, rest: Seq<u8>)
    requires
        mark.len() > 0,
    ensures
        starts(mark + rest, mark),
        (mark + rest)[0] == mark[0],
        forall|other: Seq<u8>|
            other.len() > 0 && other[0] != mark[0] ==> !#[trigger] starts(mark + rest, other),
{
    assert((mark + rest).take(mark.len() as int) =~= mark);
    assert forall|other: Seq<u8>| other.len() > 0 && other[0] != mark[0] implies !#[trigger] starts(
        mark + rest,
        other,
    ) by {
        lemma_begins(mark + rest, other);
    }
}

} // verus!
