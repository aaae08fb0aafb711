//! Base64, as the clipboard and the image protocols use it.

use vstd::prelude::*;

verus! {

/// What `STANDARD.encode` writes for bytes.
pub uninterp spec fn base64_text(data: Seq<u8>) -> Seq<char>;

/// What `STANDARD.decode` reads from a text: bytes, or the words of its error.
pub uninterp spec fn base64_bytes(text: Seq<char>) -> Result<Seq<u8>, Seq<char>>;

/// The characters of base64: letters, digits, `+`, `/` and the padding `=`.
pub open spec fn base64_char(c: char) -> bool {
    ('A' as int <= c as int <= 'Z' as int) || ('a' as int <= c as int <= 'z' as int) || ('0' as int
        <= c as int <= '9' as int) || c == '+' || c == '/' || c == '='
}

/// `Engine::encode` of the engine `STANDARD`, which has the standard alphabet and pads. The text is
/// a function of the bytes; it has four characters of the alphabet for every three bytes begun, and
/// `Engine::decode` reads it back. The length of the text fits in a `usize` for every slice, so the
/// call never gives up on one.
#[verifier::external_body]
pub(crate) fn encode_base64(data: &[u8]) -> (r: String)
    ensures
        r@ == base64_text(data@),
        r@.len() == (data@.len() + 2) / 3 * 4,
        forall|i: int| 0 <= i < r@.len() ==> base64_char(#[trigger] r@[i]),
        base64_bytes(r@) is Ok,
        base64_bytes(r@)->Ok_0 == data@,
{
    base64::Engine::encode(&base64::engine::general_purpose::STANDARD, data)
}

pub open spec fn read_result(r: Result<Vec<u8>, String>) -> Result<Seq<u8>, Seq<char>> {
    match r {
        Ok(bytes) => Ok(bytes@),
        Err(text) => Err(text@),
    }
}

/// `Engine::decode` of the engine `STANDARD`. The bytes, or the words of the error, are a function of
/// the text; which texts it accepts is not restated here.
#[verifier::external_body]
pub(crate) fn decode_base64(text: &str) -> (r: Result<Vec<u8>, String>)
    ensures
        read_result(r) == base64_bytes(text@),
{
    match base64::Engine::decode(&base64::engine::general_purpose::STANDARD, text) {
        Ok(bytes) => Ok(bytes),
        Err(err) => Err(err.to_string()),
    }
}

/// The bytes of a clipboard that a server forwards; none where they cannot be read.
pub fn decode_clipboard_payload(data: &str) -> (r: Option<Vec<u8>>)
    ensures
        match base64_bytes(data@) {
            Ok(bytes) => r matches Some(read) && read@ == bytes,
            Err(_) => r is None,
        },
{
    match decode_base64(data) {
        Ok(bytes) => Some(bytes),
        Err(_) => None,
    }
}

/// The sequence that puts bytes into the terminal's clipboard.
pub open spec fn osc52(bytes: Seq<u8>) -> Seq<char> {
    "\x1b]52;c;"@ + base64_text(bytes) + "\x07"@
}

/// The sequence that puts bytes into the terminal's clipboard. What it carries reads back as these
/// bytes.
pub fn osc52_sequence(bytes: &Vec<u8>) -> (r: String)
    ensures
        r@ == osc52(bytes@),
        base64_bytes(base64_text(bytes@)) == Ok::<Seq<u8>, Seq<char>>(bytes@),
{
    let mut text = "\x1b]52;c;".to_owned();
    let encoded = encode_base64(bytes.as_slice());
    text.append(encoded.as_str());
    text.append("\x07");
    text
}

/// The sequence that puts a forwarded clipboard into the terminal's own; none where the clipboard
/// cannot be read.
pub fn forwarded_clipboard_osc52(data: &str) -> (r: Option<String>)
    ensures
        match base64_bytes(data@) {
            Ok(bytes) => r matches Some(text) && text@ == osc52(bytes) && base64_bytes(
                base64_text(bytes),
            ) == Ok::<Seq<u8>, Seq<char>>(bytes),
            Err(_) => r is None,
        },
{
    match decode_clipboard_payload(data) {
        Some(bytes) => Some(osc52_sequence(&bytes)),
        None => None,
    }
}

} // verus!
