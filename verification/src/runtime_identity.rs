//! The identity of a running server and session.
//!
//! The ids live in files of their own, apart from the session's, so that they outlast it. Reading
//! and writing the files is the caller's part.

use crate::schema::{same_option, RuntimeIdentity};
use crate::text::{char_is_whitespace, is_core, lemma_trimmed, trim, trimmed};
use vstd::prelude::*;

verus! {

/// What `Uuid::parse_str` makes of a text: the canonical text of the UUID, or the words of the
/// error.
pub uninterp spec fn uuid_read(text: Seq<char>) -> Result<Seq<char>, Seq<char>>;

pub open spec fn result_chars(r: Result<String, String>) -> Result<Seq<char>, Seq<char>> {
    match r {
        Ok(text) => Ok(text@),
        Err(message) => Err(message@),
    }
}

/// `Uuid::parse_str` reads a UUID; `to_string` writes the UUID, or the error, as text. The result
/// is a function of the text; the accepted formats are not restated here.
#[verifier::external_body]
fn read_uuid(text: &str) -> (r: Result<String, String>)
    ensures
        result_chars(r) == uuid_read(text@),
{
    match uuid::Uuid::parse_str(text) {
        Ok(id) => Ok(id.to_string()),
        Err(err) => Err(err.to_string()),
    }
}

/// A lower-case hexadecimal digit or a hyphen.
pub open spec fn uuid_char(c: char) -> bool {
    ('0' as int <= c as int <= '9' as int) || ('a' as int <= c as int <= 'f' as int) || c == '-'
}

/// `Uuid::new_v4` draws a random UUID, `to_string` writes it: thirty-six lower-case hexadecimal
/// digits and hyphens, which `Uuid::parse_str` reads back as that same text. Which one comes is
/// left to chance. The process ends where the system has no randomness to give.
#[verifier::external_body]
fn draw_uuid() -> (r: String)
    ensures
        r@.len() == 36,
        forall|i: int| 0 <= i < 36 ==> uuid_char(#[trigger] r@[i]),
        uuid_read(r@) == Ok::<Seq<char>, Seq<char>>(r@),
{
    uuid::Uuid::new_v4().to_string()
}

/// The id in a file, or what is wrong with the file.
pub open spec fn stored_id(path: Seq<char>, raw: Seq<char>) -> Result<Seq<char>, Seq<char>> {
    match uuid_read(trimmed(raw)) {
        Ok(id) => Ok(id),
        Err(message) => Err(
            "invalid Herdr runtime identity at "@ + path + ": "@ + message,
        ),
    }
}

/// What an id file's content stands for, given what reading it as a UUID came to.
pub fn judge_id(path: &str, parsed: Result<String, String>) -> (r: Result<String, String>)
    ensures
        match parsed {
            Ok(id) => r == Ok::<String, String>(id),
            Err(message) => r matches Err(text) && text@ == "invalid Herdr runtime identity at "@
                + path@ + ": "@ + message@,
        },
{
    match parsed {
        Ok(id) => Ok(id),
        Err(message) => {
            let mut text = "invalid Herdr runtime identity at ".to_owned();
            text.append(path);
            text.append(": ");
            text.append(message.as_str());
            Err(text)
        },
    }
}

/// The id that the file at `path` holds: its content without surrounding white space, in the
/// canonical form.
pub fn read_valid_id(path: &str, raw: &str) -> (r: Result<String, String>)
    ensures
        result_chars(r) == stored_id(path@, raw@),
{
    let bare = trim(raw);
    judge_id(path, read_uuid(bare.as_str()))
}

/// What to do for an id.
#[derive(Debug, PartialEq, Eq)]
pub enum IdStep {
    /// The id is known.
    Use(String),
    /// Create the file with this content, unless it is there by then; the id is the other text.
    Create { id: String, content: String },
    /// The file is there and does not hold an id; it is left as it is.
    Fail(String),
}

/// What an id file comes to: `content` is what the file holds, none where there is no file.
pub fn load_or_create_id(path: &str, content: Option<&str>) -> (r: IdStep)
    ensures
        match content {
            Some(raw) => match stored_id(path@, raw@) {
                Ok(id) => r matches IdStep::Use(text) && text@ == id,
                Err(message) => r matches IdStep::Fail(text) && text@ == message,
            },
            None => {
                &&& r is Create
                &&& r->content@ == r->id@ + seq!['\n']
                &&& r->id@.len() == 36
                &&& stored_id(path@, r->content@) == Ok::<Seq<char>, Seq<char>>(r->id@)
            },
        },
{
    match content {
        Some(raw) => match read_valid_id(path, raw) {
            Ok(id) => IdStep::Use(id),
            Err(message) => IdStep::Fail(message),
        },
        None => {
            let id = draw_uuid();
            let mut content = id.clone();
            content.push('\n');
            proof {
                lemma_written_id(id@);
                assert(content@ =~= id@ + seq!['\n']);
            }
            IdStep::Create { id, content }
        },
    }
}

/// The id after an attempt to create its file: the one written, or, where the file was there by
/// then with `present` in it, the one it holds.
pub fn settle_id(path: &str, written: String, present: Option<&str>) -> (r: Result<String, String>)
    ensures
        match present {
            None => r == Ok::<String, String>(written),
            Some(raw) => result_chars(r) == stored_id(path@, raw@),
        },
{
    match present {
        None => Ok(written),
        Some(raw) => read_valid_id(path, raw),
    }
}

/// A line that holds an id is the id and the line's end.
proof fn lemma_written_id(id: Seq<char>)
    requires
        id.len() == 36,
        forall|i: int| 0 <= i < 36 ==> uuid_char(#[trigger] id[i]),
    ensures
        trimmed(id + seq!['\n']) == id,
{
    let line = id + seq!['\n'];
    assert(uuid_char(id[0]));
    assert(uuid_char(id[35]));
    assert(line[0] == id[0]);
    assert(line[35] == id[35]);
    assert(line[36] == '\n');
    assert(crate::text::space_end(line, 0) == 0);
    assert(crate::sexp::space_start(line, 37) == 36) by {
        reveal_with_fuel(crate::sexp::space_start, 3);
    }
    assert(line.subrange(0, 36) =~= id);
}

/// The federation member that this server is, once it is known.
#[derive(Debug, PartialEq, Eq)]
pub struct FederationMember {
    pub member_id: String,
    pub member_target: String,
    pub member_label: Option<String>,
}

/// The identity as it was loaded, and the federation member.
#[derive(Debug, PartialEq, Eq)]
pub struct IdentityState {
    pub loaded: RuntimeIdentity,
    pub member: Option<FederationMember>,
}

/// The identity of a member: the runtime's ids, and what is known of the member.
pub open spec fn identity_of(
    loaded: RuntimeIdentity,
    member: Option<FederationMember>,
) -> RuntimeIdentity {
    match member {
        Some(m) => RuntimeIdentity {
            member_id: m.member_id,
            member_target: m.member_target,
            member_label: m.member_label,
            ..loaded
        },
        None => loaded,
    }
}

/// Sets which federation member this server is.
pub fn set_federation_member(
    state: &mut IdentityState,
    member_id: String,
    member_target: String,
    member_label: Option<String>,
)
    ensures
        final(state).loaded == old(state).loaded,
        final(state).member == Some(FederationMember { member_id, member_target, member_label }),
{
    state.member = Some(FederationMember { member_id, member_target, member_label });
}

/// The identity as it is now.
pub fn current(state: &IdentityState) -> (r: RuntimeIdentity)
    ensures
        r == identity_of(state.loaded, state.member),
{
    let mut identity = state.loaded.clone();
    if let Some(member) = &state.member {
        identity.member_id = member.member_id.clone();
        identity.member_target = member.member_target.clone();
        identity.member_label = same_option(&member.member_label);
    }
    identity
}

/// The identity of a runtime before its federation member is known.
pub fn load_or_create(server_id: String, session_id: String, session_name: String) -> (r:
    RuntimeIdentity)
    ensures
        r.server_id == server_id,
        r.session_id == session_id,
        r.session_name == session_name,
        r.member_id@ == Seq::<char>::empty(),
        r.member_target@ == Seq::<char>::empty(),
        r.member_label is None,
{
    RuntimeIdentity {
        server_id,
        session_id,
        session_name,
        member_id: String::new(),
        member_target: String::new(),
        member_label: None,
    }
}

/// Whatever member a server becomes, the ids of its runtime stay.
pub proof fn membership_keeps_runtime_ids(
    loaded: RuntimeIdentity,
    a: Option<FederationMember>,
    b: Option<FederationMember>,
)
    ensures
        identity_of(loaded, a).server_id == identity_of(loaded, b).server_id,
        identity_of(loaded, a).session_id == identity_of(loaded, b).session_id,
        identity_of(loaded, a).session_name == identity_of(loaded, b).session_name,
{
}

/// A server that is a member says so with all that is known of the member.
pub proof fn members_name_themselves(loaded: RuntimeIdentity, member: FederationMember)
    ensures
        ({
            let now = identity_of(loaded, Some(member));
            &&& now.member_id == member.member_id
            &&& now.member_target == member.member_target
            &&& now.member_label == member.member_label
            &&& now.server_id == loaded.server_id
            &&& now.session_id == loaded.session_id
            &&& now.session_name == loaded.session_name
        }),
        identity_of(loaded, None) == loaded,
{
}

/// Blanks around a stored id do not count, and an id that cannot be read is reported with its file.
pub proof fn stored_ids_are_read(path: Seq<char>, raw: Seq<char>, a: int, b: int)
    requires
        0 <= a < b <= raw.len(),
        forall|i: int| 0 <= i < a ==> char_is_whitespace(#[trigger] raw[i]),
        forall|i: int| b <= i < raw.len() ==> char_is_whitespace(#[trigger] raw[i]),
        !char_is_whitespace(raw[a]),
        !char_is_whitespace(raw[b - 1]),
    ensures
        match uuid_read(raw.subrange(a, b)) {
            Ok(id) => stored_id(path, raw) == Ok::<Seq<char>, Seq<char>>(id),
            Err(why) => stored_id(path, raw) == Err::<Seq<char>, Seq<char>>(
                "invalid Herdr runtime identity at "@ + path + ": "@ + why,
            ),
        },
{
    lemma_trimmed(raw);
    let (c, d) = choose|c: int, d: int| #[trigger]
        is_core(raw, c, d) && trimmed(raw) == raw.subrange(c, d);
    assert(c <= a) by {
        if a < c {
            assert(char_is_whitespace(raw[a]));
        }
    }
    assert(b <= d) by {
        if d < b {
            assert(char_is_whitespace(raw[b - 1]));
        }
    }
    assert(a <= c) by {
        if c < a {
            assert(char_is_whitespace(raw[c]));
        }
    }
    assert(d <= b) by {
        if b < d {
            assert(char_is_whitespace(raw[d - 1]));
        }
    }
}

} // verus!
